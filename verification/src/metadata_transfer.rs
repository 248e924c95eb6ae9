//! Carrying EXIF and ICC metadata from a source image into a converted
//! output of the same container: reading both from JPEG and PNG bytes, and
//! embedding them into the output's bytes with img-parts.
use vstd::prelude::*;
use crate::error::GoopError;
use crate::metadata::{
    collect_icc_profile, exif_summary, has_exif_prefix, has_icc_prefix, is_exif_segment, is_icc_segment, is_metadata_error,
    metadata_invalid, opt_bytes, parse_jpeg, segs_view, spec_collect_icc, spec_first_exif,
    spec_img_parts_jpeg, spec_preflight, spec_preflight_detail, Container, JpegSegment,
    PreflightOutcome,
};
use crate::text::{owned, push_str};

verus! {

broadcast use vstd::string::group_string_axioms;

/// An image-handling failure whose text is `m`.
pub open spec fn is_image_failure(e: GoopError, m: Seq<char>) -> bool {
    e matches GoopError::SubprocessFailed { binary, stderr } && binary@ == "image"@ && stderr@ == m
}

fn image_failure(prefix: &str, detail: &str) -> (e: GoopError)
    ensures
        is_image_failure(e, prefix@ + detail@),
{
    let mut m = owned(prefix);
    push_str(&mut m, detail);
    GoopError::SubprocessFailed { binary: owned("image"), stderr: m }
}

fn image_failure_text(m: &str) -> (e: GoopError)
    ensures
        is_image_failure(e, m@),
{
    GoopError::SubprocessFailed { binary: owned("image"), stderr: owned(m) }
}

// ---------------------------------------------------------------------------
// PNG chunks
// ---------------------------------------------------------------------------

/// One PNG chunk: its four-byte type and its contents.
#[derive(Debug, Clone, PartialEq, Eq)]
pub struct PngChunkFacts {
    pub kind: Vec<u8>,
    pub contents: Vec<u8>,
}

/// The plain views of a chunk list.
pub open spec fn chunks_view(v: Seq<PngChunkFacts>) -> Seq<(Seq<u8>, Seq<u8>)> {
    v.map_values(|c: PngChunkFacts| (c.kind@, c.contents@))
}

/// What `img_parts::png::Png::from_bytes` makes of a byte string: its
/// chunks, or the text of its error.
pub uninterp spec fn spec_img_parts_png(bytes: Seq<u8>) -> Result<Seq<(Seq<u8>, Seq<u8>)>, Seq<char>>;

/// `img_parts::png::Png::from_bytes`, with the chunks it parsed handed out
/// as plain values.
#[verifier::external_body]
fn img_parts_png_chunks(bytes: &[u8]) -> (r: Result<Vec<PngChunkFacts>, String>)
    ensures
        match r {
            Ok(v) => spec_img_parts_png(bytes@) == Ok::<Seq<(Seq<u8>, Seq<u8>)>, Seq<char>>(
                chunks_view(v@),
            ),
            Err(e) => spec_img_parts_png(bytes@) == Err::<Seq<(Seq<u8>, Seq<u8>)>, Seq<char>>(e@),
        },
{
    match img_parts::png::Png::from_bytes(img_parts::Bytes::copy_from_slice(bytes)) {
        Ok(png) => Ok(
            png.chunks().iter().map(
                |c| PngChunkFacts { kind: c.kind().to_vec(), contents: c.contents().to_vec() },
            ).collect(),
        ),
        Err(e) => Err(e.to_string()),
    }
}

/// The `eXIf` chunk type.
pub open spec fn exif_kind() -> Seq<u8> {
    seq![0x65u8, 0x58u8, 0x49u8, 0x66u8]
}

/// The `iCCP` chunk type.
pub open spec fn iccp_kind() -> Seq<u8> {
    seq![0x69u8, 0x43u8, 0x43u8, 0x50u8]
}

/// The contents of the first chunk of type `kind`.
pub open spec fn spec_first_chunk(c: Seq<(Seq<u8>, Seq<u8>)>, kind: Seq<u8>) -> Option<Seq<u8>>
    decreases c.len(),
{
    if c.len() == 0 {
        None
    } else {
        match spec_first_chunk(c.drop_last(), kind) {
            Some(x) => Some(x),
            None => if c.last().0 == kind {
                Some(c.last().1)
            } else {
                None
            },
        }
    }
}

/// Whether an `iCCP` chunk can be read: its profile name ends in a NUL
/// byte that a compression-method byte follows.
pub open spec fn iccp_contents_readable(x: Seq<u8>) -> bool {
    exists|k: int|
        0 <= k && k + 1 < x.len() && #[trigger] x[k] == 0 && forall|j: int| 0 <= j < k ==> x[j] != 0
}

/// Whether reading the ICC profile of a PNG with chunks `c` returns: its
/// first `iCCP` chunk, if any, is readable.
pub open spec fn spec_iccp_readable(c: Seq<(Seq<u8>, Seq<u8>)>) -> bool {
    match spec_first_chunk(c, iccp_kind()) {
        Some(x) => iccp_contents_readable(x),
        None => true,
    }
}

/// What `img_parts::png::Png::icc_profile` returns for the PNG parsed from
/// a byte string: the decompressed profile of its first `iCCP` chunk, or
/// nothing.
pub uninterp spec fn spec_img_parts_png_icc(bytes: Seq<u8>) -> Option<Seq<u8>>;

/// `img_parts::png::Png::icc_profile` on the PNG parsed from `bytes`. It
/// reads the profile name up to a NUL byte and then a compression byte,
/// panicking when either is missing, so those inputs are left out.
#[verifier::external_body]
fn img_parts_png_icc(bytes: &[u8]) -> (r: Option<Vec<u8>>)
    requires
        (spec_img_parts_png(bytes@) matches Ok(c) && spec_iccp_readable(c)),
    ensures
        opt_bytes(r) == spec_img_parts_png_icc(bytes@),
{
    match img_parts::png::Png::from_bytes(img_parts::Bytes::copy_from_slice(bytes)) {
        Ok(png) => img_parts::ImageICC::icc_profile(&png).map(|b| b.to_vec()),
        Err(_) => None,
    }
}

fn is_kind(k: &Vec<u8>, a: u8, b: u8, c: u8, d: u8) -> (r: bool)
    ensures
        r == (k@ == seq![a, b, c, d]),
{
    let r = k.len() == 4 && k[0] == a && k[1] == b && k[2] == c && k[3] == d;
    proof {
        if r {
            assert(k@ =~= seq![a, b, c, d]);
        }
    }
    r
}

/// The contents of the first chunk of type `a b c d`.
fn first_chunk(v: &Vec<PngChunkFacts>, a: u8, b: u8, c: u8, d: u8) -> (r: Option<Vec<u8>>)
    ensures
        opt_bytes(r) == spec_first_chunk(chunks_view(v@), seq![a, b, c, d]),
{
    let ghost cv = chunks_view(v@);
    let mut i: usize = 0;
    while i < v.len()
        invariant
            i <= v@.len(),
            cv == chunks_view(v@),
            spec_first_chunk(cv.take(i as int), seq![a, b, c, d]) is None,
        decreases v@.len() - i,
    {
        proof {
            assert(cv.take(i + 1).drop_last() =~= cv.take(i as int));
        }
        if is_kind(&v[i].kind, a, b, c, d) {
            proof {
                lemma_first_chunk_prefix(cv, seq![a, b, c, d], i as int + 1);
            }
            return Some(v[i].contents.clone());
        }
        i = i + 1;
    }
    assert(cv.take(cv.len() as int) =~= cv);
    None
}

proof fn lemma_first_chunk_prefix(c: Seq<(Seq<u8>, Seq<u8>)>, kind: Seq<u8>, k: int)
    requires
        0 <= k <= c.len(),
        spec_first_chunk(c.take(k), kind) is Some,
    ensures
        spec_first_chunk(c, kind) == spec_first_chunk(c.take(k), kind),
    decreases c.len() - k,
{
    if k < c.len() {
        assert(c.take(k + 1).drop_last() =~= c.take(k));
        lemma_first_chunk_prefix(c, kind, k + 1);
    } else {
        assert(c.take(k) =~= c);
    }
}

fn contents_readable(x: &Vec<u8>) -> (r: bool)
    ensures
        r == iccp_contents_readable(x@),
{
    let mut k: usize = 0;
    while k < x.len()
        invariant
            k <= x@.len(),
            forall|j: int| 0 <= j < k ==> x@[j] != 0,
        decreases x@.len() - k,
    {
        if x[k] == 0 {
            proof {
                if !(k + 1 < x@.len()) {
                    assert forall|m: int|
                        0 <= m && m + 1 < x@.len() && #[trigger] x@[m] == 0 implies !(forall|j: int|
                        0 <= j < m ==> x@[j] != 0) by {
                        assert(m < k);
                    }
                }
            }
            return k + 1 < x.len();
        }
        k = k + 1;
    }
    false
}

/// What reading the metadata of a JPEG or PNG source comes to: its EXIF
/// and ICC bytes, or why it was refused.
pub enum MetadataFailure {
    /// A JPEG metadata refusal carrying this detail.
    Metadata(Seq<char>),
    /// An image-handling failure with this text.
    Image(Seq<char>),
}

/// Whether `e` is the failure `f`.
pub open spec fn is_failure(e: GoopError, f: MetadataFailure) -> bool {
    match f {
        MetadataFailure::Metadata(d) => is_metadata_error(e, d),
        MetadataFailure::Image(m) => is_image_failure(e, m),
    }
}

/// The EXIF and ICC bytes of a PNG, or why they cannot be read.
pub open spec fn spec_png_metadata(bytes: Seq<u8>) -> Result<
    (Option<Seq<u8>>, Option<Seq<u8>>),
    MetadataFailure,
> {
    match spec_img_parts_png(bytes) {
        Err(m) => Err(MetadataFailure::Image("metadata: failed to parse PNG: "@ + m)),
        Ok(c) => if !spec_iccp_readable(c) {
            Err(MetadataFailure::Image("metadata: PNG ICC profile chunk is malformed"@))
        } else {
            Ok((spec_first_chunk(c, exif_kind()), spec_img_parts_png_icc(bytes)))
        },
    }
}

/// Reads the EXIF and ICC bytes of a PNG: the first `eXIf` chunk's
/// contents and the decompressed profile of the first `iCCP` chunk. A PNG
/// whose `iCCP` chunk cannot be read is refused.
pub fn png_metadata(bytes: &[u8]) -> (r: Result<(Option<Vec<u8>>, Option<Vec<u8>>), GoopError>)
    ensures
        match spec_png_metadata(bytes@) {
            Ok((x, y)) => (r matches Ok((a, b)) && opt_bytes(a) == x && opt_bytes(b) == y),
            Err(f) => (r matches Err(e) && is_failure(e, f)),
        },
{
    let chunks = match img_parts_png_chunks(bytes) {
        Ok(c) => c,
        Err(m) => return Err(image_failure("metadata: failed to parse PNG: ", m.as_str())),
    };
    let exif = first_chunk(&chunks, 0x65, 0x58, 0x49, 0x66);
    let iccp = first_chunk(&chunks, 0x69, 0x43, 0x43, 0x50);
    assert(exif_kind() =~= seq![0x65u8, 0x58u8, 0x49u8, 0x66u8]);
    assert(iccp_kind() =~= seq![0x69u8, 0x43u8, 0x43u8, 0x50u8]);
    let readable = match &iccp {
        Some(x) => contents_readable(x),
        None => true,
    };
    if !readable {
        return Err(image_failure_text("metadata: PNG ICC profile chunk is malformed"));
    }
    let icc = img_parts_png_icc(bytes);
    Ok((exif, icc))
}

// ---------------------------------------------------------------------------
// Reading metadata
// ---------------------------------------------------------------------------

/// The EXIF and ICC bytes a source carries, by container, or why they
/// cannot be read. JPEG sources are pre-scanned and parsed as `source
/// JPEG`; their ICC profile is reassembled without validation.
pub open spec fn spec_metadata_of(container: Container, bytes: Seq<u8>) -> Result<
    (Option<Seq<u8>>, Option<Seq<u8>>),
    MetadataFailure,
> {
    match container {
        Container::Jpeg => if spec_preflight(bytes) != PreflightOutcome::Sound {
            Err(
                MetadataFailure::Metadata(
                    spec_preflight_detail("source JPEG"@, spec_preflight(bytes)),
                ),
            )
        } else {
            match spec_img_parts_jpeg(bytes) {
                Err(m) => Err(MetadataFailure::Metadata("source JPEG"@ + " is malformed: "@ + m)),
                Ok(segs) => match spec_collect_icc(segs, false) {
                    Err(m) => Err(MetadataFailure::Metadata(m)),
                    Ok(icc) => Ok((spec_first_exif(segs), icc)),
                },
            }
        },
        Container::Png => spec_png_metadata(bytes),
        Container::Other => Ok((None, None)),
    }
}

/// Reads the EXIF and ICC bytes of a source in `container`; other
/// containers carry none.
pub fn metadata_of(container: Container, bytes: &[u8]) -> (r: Result<
    (Option<Vec<u8>>, Option<Vec<u8>>),
    GoopError,
>)
    ensures
        match spec_metadata_of(container, bytes@) {
            Ok((x, y)) => (r matches Ok((a, b)) && opt_bytes(a) == x && opt_bytes(b) == y),
            Err(f) => (r matches Err(e) && is_failure(e, f)),
        },
{
    match container {
        Container::Jpeg => {
            let segs = match parse_jpeg(bytes, "source JPEG") {
                Ok(s) => s,
                Err(e) => return Err(e),
            };
            let (exif, _) = exif_summary(&segs);
            let icc = match collect_icc_profile(&segs, false) {
                Ok(i) => i,
                Err(e) => return Err(e),
            };
            Ok((exif, icc))
        },
        Container::Png => png_metadata(bytes),
        Container::Other => Ok((None, None)),
    }
}

// ---------------------------------------------------------------------------
// Embedding metadata
// ---------------------------------------------------------------------------

/// The number of segments that are not EXIF segments.
pub open spec fn count_not_exif(s: Seq<(u8, Seq<u8>)>) -> nat
    decreases s.len(),
{
    if s.len() == 0 {
        0
    } else {
        count_not_exif(s.drop_last()) + if is_exif_segment(s.last()) { 0nat } else { 1nat }
    }
}

/// The number of segments that are not ICC segments.
pub open spec fn count_not_icc(s: Seq<(u8, Seq<u8>)>) -> nat
    decreases s.len(),
{
    if s.len() == 0 {
        0
    } else {
        count_not_icc(s.drop_last()) + if is_icc_segment(s.last()) { 0nat } else { 1nat }
    }
}

/// The number of segments that are neither EXIF nor ICC segments.
pub open spec fn count_neither(s: Seq<(u8, Seq<u8>)>) -> nat
    decreases s.len(),
{
    if s.len() == 0 {
        0
    } else {
        count_neither(s.drop_last()) + if is_exif_segment(s.last()) || is_icc_segment(s.last()) {
            0nat
        } else {
            1nat
        }
    }
}

/// Whether every ICC segment holds its sequence number and count.
pub open spec fn icc_segments_complete(s: Seq<(u8, Seq<u8>)>) -> bool {
    forall|i: int| 0 <= i < s.len() && #[trigger] is_icc_segment(s[i]) ==> s[i].1.len() >= 14
}

/// Whether img-parts can set `exif` and `icc` on a JPEG with segments
/// `segs` and encode it: an EXIF payload fits one segment and goes in at
/// position 3; an ICC profile needs readable ICC segments and goes in at
/// position 3 of what remains.
pub open spec fn spec_jpeg_embed_safe(
    segs: Seq<(u8, Seq<u8>)>,
    exif: Option<Seq<u8>>,
    icc: Option<Seq<u8>>,
) -> bool {
    &&& exif matches Some(e) ==> e.len() <= 65527 && count_not_exif(segs) >= 3
    &&& icc is Some ==> icc_segments_complete(segs) && (if exif is Some {
        count_neither(segs) + 1
    } else {
        count_not_icc(segs)
    }) >= 3
}

/// What img-parts makes of the JPEG parsed from `bytes` after
/// `set_exif(exif)` (when given), then `set_icc_profile(icc)` (when given),
/// encoded again.
pub uninterp spec fn spec_img_parts_jpeg_embedded(
    bytes: Seq<u8>,
    exif: Option<Seq<u8>>,
    icc: Option<Seq<u8>>,
) -> Seq<u8>;

/// `Jpeg::from_bytes`, `set_exif`, `encoder().write_to`.
#[verifier::external_body]
fn img_parts_jpeg_embed_exif(bytes: &[u8], exif: &[u8]) -> (r: Vec<u8>)
    requires
        (spec_img_parts_jpeg(bytes@) matches Ok(segs) && spec_jpeg_embed_safe(segs, Some(exif@), None)),
    ensures
        r@ == spec_img_parts_jpeg_embedded(bytes@, Some(exif@), None),
{
    let mut out = Vec::new();
    if let Ok(mut jpeg) = img_parts::jpeg::Jpeg::from_bytes(img_parts::Bytes::copy_from_slice(bytes)) {
        img_parts::ImageEXIF::set_exif(&mut jpeg, Some(img_parts::Bytes::copy_from_slice(exif)));
        let _ = jpeg.encoder().write_to(&mut out);
    }
    out
}

/// `Jpeg::from_bytes`, `set_icc_profile`, `encoder().write_to`.
#[verifier::external_body]
fn img_parts_jpeg_embed_icc(bytes: &[u8], icc: &[u8]) -> (r: Vec<u8>)
    requires
        (spec_img_parts_jpeg(bytes@) matches Ok(segs) && spec_jpeg_embed_safe(segs, None, Some(icc@))),
    ensures
        r@ == spec_img_parts_jpeg_embedded(bytes@, None, Some(icc@)),
{
    let mut out = Vec::new();
    if let Ok(mut jpeg) = img_parts::jpeg::Jpeg::from_bytes(img_parts::Bytes::copy_from_slice(bytes)) {
        img_parts::ImageICC::set_icc_profile(&mut jpeg, Some(img_parts::Bytes::copy_from_slice(icc)));
        let _ = jpeg.encoder().write_to(&mut out);
    }
    out
}

/// `Jpeg::from_bytes`, `set_exif`, `set_icc_profile`, `encoder().write_to`.
#[verifier::external_body]
fn img_parts_jpeg_embed_both(bytes: &[u8], exif: &[u8], icc: &[u8]) -> (r: Vec<u8>)
    requires
        (spec_img_parts_jpeg(bytes@) matches Ok(segs) && spec_jpeg_embed_safe(
            segs,
            Some(exif@),
            Some(icc@),
        )),
    ensures
        r@ == spec_img_parts_jpeg_embedded(bytes@, Some(exif@), Some(icc@)),
{
    let mut out = Vec::new();
    if let Ok(mut jpeg) = img_parts::jpeg::Jpeg::from_bytes(img_parts::Bytes::copy_from_slice(bytes)) {
        img_parts::ImageEXIF::set_exif(&mut jpeg, Some(img_parts::Bytes::copy_from_slice(exif)));
        img_parts::ImageICC::set_icc_profile(&mut jpeg, Some(img_parts::Bytes::copy_from_slice(icc)));
        let _ = jpeg.encoder().write_to(&mut out);
    }
    out
}

/// The number of chunks whose type is not `k`.
pub open spec fn count_kind_not(c: Seq<(Seq<u8>, Seq<u8>)>, k: Seq<u8>) -> nat
    decreases c.len(),
{
    if c.len() == 0 {
        0
    } else {
        count_kind_not(c.drop_last(), k) + if c.last().0 == k { 0nat } else { 1nat }
    }
}

/// The number of chunks that are neither `eXIf` nor `iCCP`.
pub open spec fn count_kind_neither(c: Seq<(Seq<u8>, Seq<u8>)>) -> nat
    decreases c.len(),
{
    if c.len() == 0 {
        0
    } else {
        count_kind_neither(c.drop_last()) + if c.last().0 == exif_kind() || c.last().0
            == iccp_kind() {
            0nat
        } else {
            1nat
        }
    }
}

/// Whether img-parts can set `exif` and `icc` on a PNG with chunks `c` and
/// encode it: the EXIF chunk goes in before the last chunk and the ICC
/// chunk at position 1, so a chunk must remain; each chunk's length must
/// fit 32 bits.
pub open spec fn spec_png_embed_safe(
    c: Seq<(Seq<u8>, Seq<u8>)>,
    exif: Option<Seq<u8>>,
    icc: Option<Seq<u8>>,
) -> bool {
    &&& exif matches Some(e) ==> e.len() <= 0xffff_ffff && count_kind_not(c, exif_kind()) >= 1
    &&& icc matches Some(p) ==> p.len() <= 0x7fff_ffff && (if exif is Some {
        count_kind_neither(c) + 1
    } else {
        count_kind_not(c, iccp_kind())
    }) >= 1
}

/// What img-parts makes of the PNG parsed from `bytes` after
/// `set_exif(exif)` (when given), then `set_icc_profile(icc)` (when given),
/// encoded again.
pub uninterp spec fn spec_img_parts_png_embedded(
    bytes: Seq<u8>,
    exif: Option<Seq<u8>>,
    icc: Option<Seq<u8>>,
) -> Seq<u8>;

/// `Png::from_bytes`, `set_exif`, `encoder().write_to`.
#[verifier::external_body]
fn img_parts_png_embed_exif(bytes: &[u8], exif: &[u8]) -> (r: Vec<u8>)
    requires
        (spec_img_parts_png(bytes@) matches Ok(c) && spec_png_embed_safe(c, Some(exif@), None)),
    ensures
        r@ == spec_img_parts_png_embedded(bytes@, Some(exif@), None),
{
    let mut out = Vec::new();
    if let Ok(mut png) = img_parts::png::Png::from_bytes(img_parts::Bytes::copy_from_slice(bytes)) {
        img_parts::ImageEXIF::set_exif(&mut png, Some(img_parts::Bytes::copy_from_slice(exif)));
        let _ = png.encoder().write_to(&mut out);
    }
    out
}

/// `Png::from_bytes`, `set_icc_profile`, `encoder().write_to`.
#[verifier::external_body]
fn img_parts_png_embed_icc(bytes: &[u8], icc: &[u8]) -> (r: Vec<u8>)
    requires
        (spec_img_parts_png(bytes@) matches Ok(c) && spec_png_embed_safe(c, None, Some(icc@))),
    ensures
        r@ == spec_img_parts_png_embedded(bytes@, None, Some(icc@)),
{
    let mut out = Vec::new();
    if let Ok(mut png) = img_parts::png::Png::from_bytes(img_parts::Bytes::copy_from_slice(bytes)) {
        img_parts::ImageICC::set_icc_profile(&mut png, Some(img_parts::Bytes::copy_from_slice(icc)));
        let _ = png.encoder().write_to(&mut out);
    }
    out
}

/// `Png::from_bytes`, `set_exif`, `set_icc_profile`, `encoder().write_to`.
#[verifier::external_body]
fn img_parts_png_embed_both(bytes: &[u8], exif: &[u8], icc: &[u8]) -> (r: Vec<u8>)
    requires
        (spec_img_parts_png(bytes@) matches Ok(c) && spec_png_embed_safe(c, Some(exif@), Some(icc@))),
    ensures
        r@ == spec_img_parts_png_embedded(bytes@, Some(exif@), Some(icc@)),
{
    let mut out = Vec::new();
    if let Ok(mut png) = img_parts::png::Png::from_bytes(img_parts::Bytes::copy_from_slice(bytes)) {
        img_parts::ImageEXIF::set_exif(&mut png, Some(img_parts::Bytes::copy_from_slice(exif)));
        img_parts::ImageICC::set_icc_profile(&mut png, Some(img_parts::Bytes::copy_from_slice(icc)));
        let _ = png.encoder().write_to(&mut out);
    }
    out
}

/// Counts the segments img-parts' metadata setters keep and checks that
/// every ICC segment is complete.
fn jpeg_segment_counts(segs: &Vec<JpegSegment>) -> (r: (usize, usize, usize, bool))
    ensures
        r.0 == count_not_exif(segs_view(segs@)),
        r.1 == count_not_icc(segs_view(segs@)),
        r.2 == count_neither(segs_view(segs@)),
        r.3 == icc_segments_complete(segs_view(segs@)),
{
    let ghost v = segs_view(segs@);
    let mut a: usize = 0;
    let mut b: usize = 0;
    let mut c: usize = 0;
    let mut complete = true;
    let mut i: usize = 0;
    while i < segs.len()
        invariant
            i <= segs@.len(),
            v == segs_view(segs@),
            a <= i && b <= i && c <= i,
            a == count_not_exif(v.take(i as int)),
            b == count_not_icc(v.take(i as int)),
            c == count_neither(v.take(i as int)),
            complete == icc_segments_complete(v.take(i as int)),
        decreases segs@.len() - i,
    {
        proof {
            assert(v.take(i + 1).drop_last() =~= v.take(i as int));
            assert(v.take(i + 1).last() == v[i as int]);
        }
        let exif = segs[i].marker == 0xe1 && has_exif_prefix(&segs[i].contents);
        let icc = segs[i].marker == 0xe2 && has_icc_prefix(&segs[i].contents);
        if !exif {
            a = a + 1;
        }
        if !icc {
            b = b + 1;
        }
        if !exif && !icc {
            c = c + 1;
        }
        proof {
            let t = v.take(i + 1);
            if icc_segments_complete(t) {
                assert forall|j: int| 0 <= j < i && #[trigger] is_icc_segment(v.take(i as int)[j])
                    implies v.take(i as int)[j].1.len() >= 14 by {
                    assert(v.take(i as int)[j] == t[j]);
                }
            }
            if complete && !(icc && segs@[i as int].contents@.len() < 14) {
                assert forall|j: int| 0 <= j < t.len() && #[trigger] is_icc_segment(t[j])
                    implies t[j].1.len() >= 14 by {
                    if j < i {
                        assert(t[j] == v.take(i as int)[j]);
                    }
                }
            }
            if icc && segs@[i as int].contents@.len() < 14 {
                assert(is_icc_segment(t[i as int]));
            }
        }
        if icc && segs[i].contents.len() < 14 {
            complete = false;
        }
        i = i + 1;
    }
    assert(v.take(v.len() as int) =~= v);
    (a, b, c, complete)
}

/// Counts the chunks that are not `eXIf`, not `iCCP`, and neither.
fn png_chunk_counts(v: &Vec<PngChunkFacts>) -> (r: (usize, usize, usize))
    ensures
        r.0 == count_kind_not(chunks_view(v@), exif_kind()),
        r.1 == count_kind_not(chunks_view(v@), iccp_kind()),
        r.2 == count_kind_neither(chunks_view(v@)),
{
    let ghost cv = chunks_view(v@);
    let mut a: usize = 0;
    let mut b: usize = 0;
    let mut c: usize = 0;
    let mut i: usize = 0;
    assert(exif_kind() =~= seq![0x65u8, 0x58u8, 0x49u8, 0x66u8]);
    assert(iccp_kind() =~= seq![0x69u8, 0x43u8, 0x43u8, 0x50u8]);
    while i < v.len()
        invariant
            i <= v@.len(),
            cv == chunks_view(v@),
            a <= i && b <= i && c <= i,
            a == count_kind_not(cv.take(i as int), exif_kind()),
            b == count_kind_not(cv.take(i as int), iccp_kind()),
            c == count_kind_neither(cv.take(i as int)),
            exif_kind() == seq![0x65u8, 0x58u8, 0x49u8, 0x66u8],
            iccp_kind() == seq![0x69u8, 0x43u8, 0x43u8, 0x50u8],
        decreases v@.len() - i,
    {
        proof {
            assert(cv.take(i + 1).drop_last() =~= cv.take(i as int));
        }
        let exif = is_kind(&v[i].kind, 0x65, 0x58, 0x49, 0x66);
        let icc = is_kind(&v[i].kind, 0x69, 0x43, 0x43, 0x50);
        if !exif {
            a = a + 1;
        }
        if !icc {
            b = b + 1;
        }
        if !exif && !icc {
            c = c + 1;
        }
        i = i + 1;
    }
    assert(cv.take(cv.len() as int) =~= cv);
    (a, b, c)
}

/// The output bytes carrying `exif` and `icc`, or why they cannot be
/// embedded. A JPEG output is pre-scanned and parsed as `JPEG output`.
/// Metadata img-parts cannot set on this output (its setters would panic)
/// is refused.
pub open spec fn spec_embed_metadata(
    container: Container,
    out: Seq<u8>,
    exif: Option<Seq<u8>>,
    icc: Option<Seq<u8>>,
) -> Result<Seq<u8>, MetadataFailure> {
    if container is Jpeg {
        if spec_preflight(out) != PreflightOutcome::Sound {
            Err(MetadataFailure::Metadata(spec_preflight_detail("JPEG output"@, spec_preflight(out))))
        } else {
            match spec_img_parts_jpeg(out) {
                Err(m) => Err(MetadataFailure::Metadata("JPEG output"@ + " is malformed: "@ + m)),
                Ok(segs) => if !spec_jpeg_embed_safe(segs, exif, icc) {
                    Err(MetadataFailure::Image("metadata: JPEG output cannot carry the metadata"@))
                } else {
                    Ok(spec_img_parts_jpeg_embedded(out, exif, icc))
                },
            }
        }
    } else {
        match spec_img_parts_png(out) {
            Err(m) => Err(MetadataFailure::Image("metadata: failed to parse PNG output: "@ + m)),
            Ok(c) => if !spec_png_embed_safe(c, exif, icc) {
                Err(MetadataFailure::Image("metadata: PNG output cannot carry the metadata"@))
            } else {
                Ok(spec_img_parts_png_embedded(out, exif, icc))
            },
        }
    }
}

/// Writes the source's `exif` and `icc` bytes into the output `out` of the
/// same container: each given one replaces the output's own; one not given
/// leaves the output's as it is.
pub fn embed_metadata(
    container: Container,
    out: &[u8],
    exif: &Option<Vec<u8>>,
    icc: &Option<Vec<u8>>,
) -> (r: Result<Vec<u8>, GoopError>)
    requires
        !(container is Other),
        exif is Some || icc is Some,
    ensures
        match spec_embed_metadata(container, out@, opt_bytes(*exif), opt_bytes(*icc)) {
            Ok(b) => (r matches Ok(v) && v@ == b),
            Err(f) => (r matches Err(e) && is_failure(e, f)),
        },
{
    if let Container::Jpeg = container {
        let segs = match parse_jpeg(out, "JPEG output") {
            Ok(s) => s,
            Err(e) => return Err(e),
        };
        let (not_exif, not_icc, neither, complete) = jpeg_segment_counts(&segs);
        let exif_ok = match exif {
            Some(e) => e.len() <= 65527 && not_exif >= 3,
            None => true,
        };
        let icc_ok = match icc {
            Some(_) => complete && (if exif.is_some() {
                neither >= 2
            } else {
                not_icc >= 3
            }),
            None => true,
        };
        if !(exif_ok && icc_ok) {
            return Err(image_failure_text("metadata: JPEG output cannot carry the metadata"));
        }
        match (exif, icc) {
            (Some(e), Some(p)) => Ok(img_parts_jpeg_embed_both(out, e.as_slice(), p.as_slice())),
            (Some(e), None) => Ok(img_parts_jpeg_embed_exif(out, e.as_slice())),
            (None, Some(p)) => Ok(img_parts_jpeg_embed_icc(out, p.as_slice())),
            (None, None) => Ok(Vec::new()),
        }
    } else {
        let chunks = match img_parts_png_chunks(out) {
            Ok(c) => c,
            Err(m) => return Err(image_failure("metadata: failed to parse PNG output: ", m.as_str())),
        };
        let (not_exif, not_icc, _) = png_chunk_counts(&chunks);
        let exif_ok = match exif {
            Some(e) => e.len() as u64 <= 0xffff_ffffu64 && not_exif >= 1,
            None => true,
        };
        let icc_ok = match icc {
            Some(p) => p.len() as u64 <= 0x7fff_ffffu64 && (exif.is_some() || not_icc >= 1),
            None => true,
        };
        if !(exif_ok && icc_ok) {
            return Err(image_failure_text("metadata: PNG output cannot carry the metadata"));
        }
        match (exif, icc) {
            (Some(e), Some(p)) => Ok(img_parts_png_embed_both(out, e.as_slice(), p.as_slice())),
            (Some(e), None) => Ok(img_parts_png_embed_exif(out, e.as_slice())),
            (None, Some(p)) => Ok(img_parts_png_embed_icc(out, p.as_slice())),
            (None, None) => Ok(Vec::new()),
        }
    }
}

} // verus!
