//! Camera RAW input: which extensions name RAW files, the limits on what a
//! RAW renderer may return, and the conversion of its RGBA buffer to RGB.
use vstd::prelude::*;
use crate::error::GoopError;
use crate::text::{ascii_lower_seq, owned, str_eq, to_ascii_lowercase};

verus! {

/// The lower-case extensions of camera RAW formats.
pub open spec fn spec_is_raw_lower(e: Seq<char>) -> bool {
    ||| e == "dng"@
    ||| e == "nef"@
    ||| e == "nrw"@
    ||| e == "arw"@
    ||| e == "srf"@
    ||| e == "sr2"@
    ||| e == "cr2"@
    ||| e == "cr3"@
    ||| e == "crw"@
    ||| e == "raf"@
    ||| e == "orf"@
    ||| e == "rw2"@
    ||| e == "pef"@
    ||| e == "srw"@
    ||| e == "rwl"@
    ||| e == "3fr"@
    ||| e == "fff"@
    ||| e == "iiq"@
}

/// Whether `ext` (without a dot, in any ASCII case) names a RAW format.
pub open spec fn spec_is_raw_extension(ext: Seq<char>) -> bool {
    spec_is_raw_lower(ascii_lower_seq(ext))
}

/// Whether `ext` names a camera RAW format, ignoring ASCII case.
pub fn is_raw_extension(ext: &str) -> (r: bool)
    ensures
        r == spec_is_raw_extension(ext@),
{
    let lower = to_ascii_lowercase(ext);
    let e = lower.as_str();
    str_eq(e, "dng") || str_eq(e, "nef") || str_eq(e, "nrw") || str_eq(e, "arw") || str_eq(
        e,
        "srf",
    ) || str_eq(e, "sr2") || str_eq(e, "cr2") || str_eq(e, "cr3") || str_eq(e, "crw") || str_eq(
        e,
        "raf",
    ) || str_eq(e, "orf") || str_eq(e, "rw2") || str_eq(e, "pef") || str_eq(e, "srw") || str_eq(
        e,
        "rwl",
    ) || str_eq(e, "3fr") || str_eq(e, "fff") || str_eq(e, "iiq")
}

/// The camera RAW extensions, in lower case.
pub open spec fn camera_raw_extensions() -> Set<Seq<char>> {
    set![
        "dng"@, "nef"@, "nrw"@, "arw"@, "srf"@, "sr2"@, "cr2"@, "cr3"@, "crw"@,
        "raf"@, "orf"@, "rw2"@, "pef"@, "srw"@, "rwl"@, "3fr"@, "fff"@, "iiq"@,
    ]
}

/// An extension names a camera RAW format exactly when its ASCII lower-case
/// form is one of the camera RAW extensions, so that `CR2`, `Cr2` and `cr2`
/// are all RAW and nothing outside that list is.
pub proof fn lemma_raw_extensions_are_the_listed_ones(ext: Seq<char>)
    ensures
        spec_is_raw_extension(ext) <==> camera_raw_extensions().contains(ascii_lower_seq(ext)),
{
}

/// A RAW-component error.
pub open spec fn is_raw_error(e: GoopError, message: Seq<char>) -> bool {
    e matches GoopError::SubprocessFailed { binary, stderr } && binary@ == "RAW"@ && stderr@
        == message
}

/// An error attributed to the RAW component.
pub fn raw_error(message: &str) -> (e: GoopError)
    ensures
        is_raw_error(e, message@),
{
    GoopError::SubprocessFailed { binary: owned("RAW"), stderr: owned(message) }
}

/// The error reported where no RAW renderer is available.
pub fn unavailable() -> (e: GoopError)
    ensures
        is_raw_error(
            e,
            "RAW conversion is available on macOS only. Export the original as TIFF or PNG using your camera software first."@,
        ),
{
    raw_error(
        "RAW conversion is available on macOS only. Export the original as TIFF or PNG using your camera software first.",
    )
}

/// The largest RAW axis accepted.
pub const MAX_RAW_AXIS: u32 = 32768;

/// The largest RAW pixel count accepted.
pub const MAX_RAW_PIXELS: u64 = 100_000_000;

/// Whether a renderer's reported RAW dimensions are within the safety
/// limits: nonzero, at most 32768 per axis and 100 million pixels.
pub open spec fn spec_raw_dimensions_ok(width: u32, height: u32) -> bool {
    width != 0 && height != 0 && width <= MAX_RAW_AXIS && height <= MAX_RAW_AXIS && (width as int)
        * (height as int) <= MAX_RAW_PIXELS
}

/// Checks a renderer's reported RAW dimensions against the safety limits.
pub fn check_raw_dimensions(width: u32, height: u32) -> (r: Result<(), GoopError>)
    ensures
        r is Ok == spec_raw_dimensions_ok(width, height),
        r matches Err(e) ==> is_raw_error(e, "RAW dimensions exceed the safety limit"@),
{
    if width == 0 || height == 0 || width > MAX_RAW_AXIS || height > MAX_RAW_AXIS {
        return Err(raw_error("RAW dimensions exceed the safety limit"));
    }
    assert((width as int) * (height as int) <= 32768 * 32768) by (nonlinear_arith)
        requires
            width <= 32768,
            height <= 32768,
    ;
    if (width as u64) * (height as u64) > MAX_RAW_PIXELS {
        Err(raw_error("RAW dimensions exceed the safety limit"))
    } else {
        Ok(())
    }
}

/// The RGB bytes of an RGBA buffer: every fourth byte dropped.
pub open spec fn spec_rgba_to_rgb(rgba: Seq<u8>) -> Seq<u8>
    decreases rgba.len(),
{
    if rgba.len() < 4 {
        Seq::empty()
    } else {
        spec_rgba_to_rgb(rgba.take(rgba.len() - 4)) + rgba.subrange(
            rgba.len() - 4,
            rgba.len() - 1,
        )
    }
}

/// Converting whole RGBA pixels keeps three bytes of every four: the RGB
/// buffer has three bytes per pixel, and byte `k` of pixel `p` in it is byte
/// `k` (red, green, blue) of pixel `p` in the RGBA buffer; only alpha is
/// dropped.
pub proof fn lemma_rgb_keeps_colour_channels(rgba: Seq<u8>)
    requires
        rgba.len() % 4 == 0,
    ensures
        spec_rgba_to_rgb(rgba).len() == rgba.len() / 4 * 3,
        forall|i: int|
            0 <= i < spec_rgba_to_rgb(rgba).len() ==> #[trigger] spec_rgba_to_rgb(rgba)[i]
                == rgba[(i / 3) * 4 + i % 3],
    decreases rgba.len(),
{
    if rgba.len() >= 4 {
        let q = rgba.take(rgba.len() - 4);
        lemma_rgb_keeps_colour_channels(q);
        let out = spec_rgba_to_rgb(rgba);
        let m = spec_rgba_to_rgb(q).len() as int;
        assert(m == (rgba.len() - 4) / 4 * 3);
        assert forall|i: int| 0 <= i < out.len() implies #[trigger] out[i] == rgba[(i / 3) * 4 + i
            % 3] by {
            if i < m {
                assert(out[i] == spec_rgba_to_rgb(q)[i]);
                assert((i / 3) * 4 + i % 3 < q.len());
            } else {
                let k = i - m;
                assert(0 <= k < 3);
                assert(i / 3 == m / 3);
                assert(i % 3 == k);
                assert(out[i] == rgba[rgba.len() - 4 + k]);
            }
        }
    }
}

/// Converts a renderer's RGBA buffer of `width`×`height` pixels into RGB
/// bytes, refusing a buffer whose length does not match the dimensions.
pub fn rgba_to_rgb(rgba: &[u8], width: u32, height: u32) -> (r: Result<Vec<u8>, GoopError>)
    ensures
        rgba@.len() == (width as int) * (height as int) * 4 <==> r is Ok,
        r matches Ok(rgb) ==> rgb@ == spec_rgba_to_rgb(rgba@),
        (width as int) * (height as int) * 4 > usize::MAX ==> (r matches Err(e) && is_raw_error(
            e,
            "RAW buffer dimensions overflow"@,
        )),
        (width as int) * (height as int) * 4 <= usize::MAX && rgba@.len() != (width as int) * (
        height as int) * 4 ==> (r matches Err(e) && is_raw_error(
            e,
            "RAW renderer returned an invalid pixel buffer"@,
        )),
{
    let n = rgba.len();
    let w = width as usize;
    let h = height as usize;
    let pixels = match w.checked_mul(h) {
        Some(p) => p,
        None => {
            assert((width as int) * (height as int) > usize::MAX);
            assert((width as int) * (height as int) * 4 > usize::MAX) by (nonlinear_arith)
                requires (width as int) * (height as int) > usize::MAX;
            return Err(raw_error("RAW buffer dimensions overflow"));
        },
    };
    let length = match pixels.checked_mul(4) {
        Some(l) => l,
        None => {
            assert(rgba@.len() == n);
            assert((width as int) * (height as int) == pixels);
            return Err(raw_error("RAW buffer dimensions overflow"));
        },
    };
    if rgba.len() != length {
        return Err(raw_error("RAW renderer returned an invalid pixel buffer"));
    }
    let mut rgb: Vec<u8> = Vec::new();
    let mut p: usize = 0;
    while p < pixels
        invariant
            p <= pixels,
            length == pixels * 4,
            rgba@.len() == length,
            rgb@ == spec_rgba_to_rgb(rgba@.take(p as int * 4)),
        decreases pixels - p,
    {
        let base = p * 4;
        rgb.push(rgba[base]);
        rgb.push(rgba[base + 1]);
        rgb.push(rgba[base + 2]);
        proof {
            let t = rgba@.take(p as int * 4 + 4);
            assert(t.take(t.len() - 4) =~= rgba@.take(p as int * 4));
            assert(t.subrange(t.len() - 4, t.len() - 1) =~= seq![
                rgba@[base as int],
                rgba@[base + 1],
                rgba@[base + 2],
            ]);
        }
        p = p + 1;
    }
    assert(rgba@.take(pixels as int * 4) =~= rgba@);
    Ok(rgb)
}

} // verus!
