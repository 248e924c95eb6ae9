//! Limits of the lossy WebP encoder and the checks made on what it is given
//! and on what it returns.
use vstd::prelude::*;
use crate::error::{invalid, is_invalid_with, GoopError};

verus! {

/// The longest axis libwebp encodes, in pixels.
pub const MAX_DIMENSION: u32 = 16_383;

/// The largest image any conversion produces, in pixels.
pub const MAX_OUTPUT_PIXELS: u64 = 100_000_000;

/// The largest raster a conversion allocates, in bytes (512 MiB).
pub const MAX_ALLOC: u64 = 536_870_912;

/// The raster size, in bytes, of a `width`×`height` image with
/// `bytes_per_pixel` bytes per pixel, or the reason it is refused.
pub open spec fn spec_validate_raster(width: u32, height: u32, bytes_per_pixel: u64) -> Result<
    int,
    Seq<char>,
> {
    if width == 0 || height == 0 {
        Err("WebP dimensions must be non-zero"@)
    } else if width > MAX_DIMENSION || height > MAX_DIMENSION {
        Err("WebP dimensions exceed libwebp's 16383-pixel axis limit"@)
    } else if width * height > MAX_OUTPUT_PIXELS {
        Err("WebP dimensions exceed the 100-million-pixel limit"@)
    } else if width * height * bytes_per_pixel > u64::MAX {
        Err("WebP raster allocation overflow"@)
    } else if width * height * bytes_per_pixel > MAX_ALLOC {
        Err("WebP exceeds the 512 MiB raster allocation limit"@)
    } else {
        Ok(width * height * bytes_per_pixel)
    }
}

/// Checks a raster against the encoder's axis, pixel and allocation limits
/// before anything is allocated, and returns its size in bytes.
pub fn validate_raster(width: u32, height: u32, bytes_per_pixel: u64) -> (r: Result<usize, GoopError>)
    ensures
        match spec_validate_raster(width, height, bytes_per_pixel) {
            Ok(n) => (r matches Ok(x) && x == n),
            Err(m) => (r matches Err(e) && is_invalid_with(e, m)),
        },
{
    if width == 0 || height == 0 {
        return Err(invalid("WebP dimensions must be non-zero"));
    }
    if width > MAX_DIMENSION || height > MAX_DIMENSION {
        return Err(invalid("WebP dimensions exceed libwebp's 16383-pixel axis limit"));
    }
    assert((width as u64) * (height as u64) <= 16383 * 16383) by (nonlinear_arith)
        requires
            width <= 16383,
            height <= 16383,
    ;
    let pixels: u64 = (width as u64) * (height as u64);
    if pixels > MAX_OUTPUT_PIXELS {
        return Err(invalid("WebP dimensions exceed the 100-million-pixel limit"));
    }
    let bytes = match pixels.checked_mul(bytes_per_pixel) {
        Some(b) => b,
        None => return Err(invalid("WebP raster allocation overflow")),
    };
    if bytes > MAX_ALLOC {
        return Err(invalid("WebP exceeds the 512 MiB raster allocation limit"));
    }
    Ok(bytes as usize)
}

/// Checks what the encoder is handed: a quality in `1..=100` and an 8-bit
/// raster whose length matches its dimensions. `channels` is 3 for RGB and
/// 4 for RGBA.
pub open spec fn spec_check_encode_input(
    quality: u8,
    width: u32,
    height: u32,
    channels: u64,
    raster_len: usize,
) -> Result<(), Seq<char>> {
    if !(1 <= quality <= 100) {
        Err("WebP quality must be between 1 and 100"@)
    } else {
        match spec_validate_raster(width, height, channels) {
            Err(m) => Err(m),
            Ok(n) => if raster_len != n {
                if channels == 3 {
                    Err("WebP RGB raster length does not match its dimensions"@)
                } else {
                    Err("WebP RGBA raster length does not match its dimensions"@)
                }
            } else {
                Ok(())
            },
        }
    }
}

/// Checks the quality and the raster handed to the lossy encoder.
pub fn check_encode_input(
    quality: u8,
    width: u32,
    height: u32,
    channels: u64,
    raster_len: usize,
) -> (r: Result<(), GoopError>)
    requires
        channels == 3 || channels == 4,
    ensures
        match spec_check_encode_input(quality, width, height, channels, raster_len) {
            Ok(_) => r is Ok,
            Err(m) => (r matches Err(e) && is_invalid_with(e, m)),
        },
{
    if !(1 <= quality && quality <= 100) {
        return Err(invalid("WebP quality must be between 1 and 100"));
    }
    let expected = match validate_raster(width, height, channels) {
        Ok(n) => n,
        Err(e) => return Err(e),
    };
    if raster_len != expected {
        if channels == 3 {
            return Err(invalid("WebP RGB raster length does not match its dimensions"));
        } else {
            return Err(invalid("WebP RGBA raster length does not match its dimensions"));
        }
    }
    Ok(())
}

/// The little-endian `u32` stored at `bytes[at..at + 4]`.
pub open spec fn le_u32(bytes: Seq<u8>, at: int) -> int {
    bytes[at] + 256 * bytes[at + 1] + 65536 * bytes[at + 2] + 16777216 * bytes[at + 3]
}

/// Whether `bytes` is a complete RIFF/WEBP container: the `RIFF` and
/// `WEBP` tags in place and a declared size that covers exactly the rest.
pub open spec fn spec_container_problem(bytes: Seq<u8>) -> Option<Seq<char>> {
    if bytes.len() < 12 || bytes.subrange(0, 4) != seq![82u8, 73u8, 70u8, 70u8] || bytes.subrange(
        8,
        12,
    ) != seq![87u8, 69u8, 66u8, 80u8] {
        Some("lossy WebP encoder returned an invalid container"@)
    } else if le_u32(bytes, 4) + 8 != bytes.len() {
        Some("lossy WebP encoder returned a truncated container"@)
    } else {
        None
    }
}

/// Whether `e` is an encoder failure reported for libwebp with `m`.
pub open spec fn is_encoder_failure(e: GoopError, m: Seq<char>) -> bool {
    e matches GoopError::SubprocessFailed { binary, stderr } && binary@ == "libwebp"@ && stderr@
        == m
}

fn encoder_failure(message: &str) -> (e: GoopError)
    ensures
        is_encoder_failure(e, message@),
{
    GoopError::SubprocessFailed {
        binary: crate::text::owned("libwebp"),
        stderr: crate::text::owned(message),
    }
}

/// Checks the container the encoder returned.
pub fn verify_container(bytes: &[u8]) -> (r: Result<(), GoopError>)
    ensures
        match spec_container_problem(bytes@) {
            None => r is Ok,
            Some(m) => (r matches Err(e) && is_encoder_failure(e, m)),
        },
{
    if bytes.len() < 12 || bytes[0] != 82 || bytes[1] != 73 || bytes[2] != 70 || bytes[3] != 70
        || bytes[8] != 87 || bytes[9] != 69 || bytes[10] != 66 || bytes[11] != 80 {
        proof {
            if bytes@.len() >= 12 {
                assert(bytes@.subrange(0, 4) != seq![82u8, 73u8, 70u8, 70u8] || bytes@.subrange(
                    8,
                    12,
                ) != seq![87u8, 69u8, 66u8, 80u8]) by {
                    if bytes[0] != 82 {
                        assert(bytes@.subrange(0, 4)[0] != 82u8);
                    } else if bytes[1] != 73 {
                        assert(bytes@.subrange(0, 4)[1] != 73u8);
                    } else if bytes[2] != 70 {
                        assert(bytes@.subrange(0, 4)[2] != 70u8);
                    } else if bytes[3] != 70 {
                        assert(bytes@.subrange(0, 4)[3] != 70u8);
                    } else if bytes[8] != 87 {
                        assert(bytes@.subrange(8, 12)[0] != 87u8);
                    } else if bytes[9] != 69 {
                        assert(bytes@.subrange(8, 12)[1] != 69u8);
                    } else if bytes[10] != 66 {
                        assert(bytes@.subrange(8, 12)[2] != 66u8);
                    } else {
                        assert(bytes@.subrange(8, 12)[3] != 80u8);
                    }
                }
            }
        }
        return Err(encoder_failure("lossy WebP encoder returned an invalid container"));
    }
    assert(bytes@.subrange(0, 4) =~= seq![82u8, 73u8, 70u8, 70u8]);
    assert(bytes@.subrange(8, 12) =~= seq![87u8, 69u8, 66u8, 80u8]);
    let declared: u64 = bytes[4] as u64 + 256 * (bytes[5] as u64) + 65536 * (bytes[6] as u64)
        + 16777216 * (bytes[7] as u64);
    if declared + 8 != bytes.len() as u64 {
        return Err(encoder_failure("lossy WebP encoder returned a truncated container"));
    }
    Ok(())
}

} // verus!
