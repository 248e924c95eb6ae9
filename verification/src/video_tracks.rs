//! Exact-map stream policies for explicit video conversions: which audio
//! and subtitle streams of a bound source are kept, how each is carried,
//! and what the finished output must show of them.
use vstd::prelude::*;
use crate::error::{invalid, invalid_owned, is_invalid_with, GoopError};
use crate::formats::{spec_extension, TargetFormat};
use crate::media::{opt_string, ProbeResult, VideoRationalFact, VideoStreamInfo};
use crate::subtitle::{opt_view, push_arg};
use crate::text::{decimal, decimal_string, owned, push_str, str_eq, views};
use crate::tracks::{
    codec_value_from_fact, policy_retains, spec_codec_value, spec_policy_retains,
    spec_text_value, text_value, tracks_view, FactView, TrackConvertOptions, TrackIdentity,
    TrackStreamPolicy, TrackTextFact, TrackView,
};
use crate::video_options::{
    audio_copyable, spec_audio_copyable, with_decimal, DetectedEncoders, ResolvedVideoView,
    VideoConvertOptions, VideoConvertRequest, VideoExecutionSummary, ResolvedVideoPlan,
};
use crate::plan::Plan;

verus! {

broadcast use vstd::string::group_string_axioms;

/// How a retained auxiliary stream reaches the output.
#[derive(Debug, Clone, Copy, PartialEq, Eq, Structural)]
pub enum VideoTrackProcessing {
    Copied,
    EncodedAac { bitrate_kbps: u32 },
}

/// What happened to one retained auxiliary stream.
#[derive(Debug, Clone, PartialEq, Eq)]
pub struct VideoTrackStreamOutcome {
    pub source: TrackIdentity,
    pub output_stream_index: u32,
    pub output_type_index: u32,
    pub processing: VideoTrackProcessing,
    pub source_codec_tag: TrackTextFact,
    pub output_codec_name: TrackTextFact,
    pub output_codec_tag: TrackTextFact,
    pub output_language: TrackTextFact,
    pub output_title: TrackTextFact,
    pub output_default: Option<bool>,
    pub output_forced: Option<bool>,
}

/// An outcome as values.
pub struct OutcomeView {
    pub source: TrackView,
    pub output_stream_index: u32,
    pub output_type_index: u32,
    pub processing: VideoTrackProcessing,
    pub source_codec_tag: FactView,
    pub output_codec_name: FactView,
    pub output_codec_tag: FactView,
    pub output_language: FactView,
    pub output_title: FactView,
    pub output_default: Option<bool>,
    pub output_forced: Option<bool>,
}

impl View for VideoTrackStreamOutcome {
    type V = OutcomeView;

    open spec fn view(&self) -> OutcomeView {
        OutcomeView {
            source: self.source@,
            output_stream_index: self.output_stream_index,
            output_type_index: self.output_type_index,
            processing: self.processing,
            source_codec_tag: self.source_codec_tag@,
            output_codec_name: self.output_codec_name@,
            output_codec_tag: self.output_codec_tag@,
            output_language: self.output_language@,
            output_title: self.output_title@,
            output_default: self.output_default,
            output_forced: self.output_forced,
        }
    }
}

/// The outcomes of a list as values.
pub open spec fn outcomes_view(v: Seq<VideoTrackStreamOutcome>) -> Seq<OutcomeView> {
    v.map_values(|o: VideoTrackStreamOutcome| o@)
}

/// The stream outcomes of an explicit video conversion with stream policies.
#[derive(Debug, Clone, PartialEq, Eq)]
pub struct VideoTrackExecutionSummary {
    pub requested: TrackConvertOptions,
    pub retained: Vec<VideoTrackStreamOutcome>,
    pub omitted_audio: Vec<TrackIdentity>,
    pub omitted_subtitles: Vec<TrackIdentity>,
    pub notices: Vec<String>,
}

/// A plan for the video stream and every retained auxiliary stream.
#[derive(Debug, Clone, PartialEq, Eq)]
pub struct ResolvedVideoTrackPlan {
    pub plan: Plan,
    pub video_summary: VideoExecutionSummary,
    pub track_summary: VideoTrackExecutionSummary,
}

/// A conversion request with explicit video settings and stream policies.
#[derive(Debug, Clone, PartialEq, Eq)]
pub struct VideoTrackRequest {
    pub video: VideoConvertRequest,
    pub track_options: Option<TrackConvertOptions>,
}

// ---------------------------------------------------------------------------
// Admission of the bound source
// ---------------------------------------------------------------------------

/// Whether a subtitle codec can be copied into a target.
pub open spec fn spec_subtitle_copyable(target: TargetFormat, codec: Seq<char>) -> bool {
    if target == TargetFormat::Mp4 || target == TargetFormat::Mov {
        codec == "mov_text"@
    } else if target == TargetFormat::Mkv {
        codec == "subrip"@ || codec == "ass"@ || codec == "ssa"@ || codec == "webvtt"@
    } else {
        false
    }
}

/// Whether a subtitle codec can be copied into a target.
pub fn subtitle_copyable(target: TargetFormat, codec: &str) -> (r: bool)
    ensures
        r == spec_subtitle_copyable(target, codec@),
{
    if target == TargetFormat::Mp4 || target == TargetFormat::Mov {
        str_eq(codec, "mov_text")
    } else if target == TargetFormat::Mkv {
        str_eq(codec, "subrip") || str_eq(codec, "ass") || str_eq(codec, "ssa") || str_eq(
            codec,
            "webvtt",
        )
    } else {
        false
    }
}

/// The first mismatch between bound identities and fresh processing facts,
/// position by position.
pub open spec fn spec_fresh_mismatch(ids: Seq<TrackView>, facts: Seq<VideoStreamInfo>) -> Option<
    Seq<char>,
>
    decreases ids.len(),
{
    if ids.len() == 0 || facts.len() < ids.len() {
        None
    } else {
        match spec_fresh_mismatch(ids.drop_last(), facts.take(ids.len() - 1)) {
            Some(m) => Some(m),
            None => {
                let t = ids.last();
                let f = facts[ids.len() - 1];
                if t.index != f.index || t.codec_type != f.codec_type@ {
                    Some("Fresh processing facts do not match the bound source order and types"@)
                } else if t.codec_name is Value && opt_string(f.codec_name) != Some(
                    t.codec_name->Value_0,
                ) {
                    Some("Fresh processing codec facts do not match the bound source"@)
                } else {
                    None
                }
            },
        }
    }
}

/// Whether fresh processing facts cover exactly the bound inventory.
pub open spec fn spec_validate_fresh_source(
    inventory: (u32, Seq<TrackView>),
    probe: ProbeResult,
) -> Result<(), Seq<char>> {
    if !(probe.track_inventory matches Some(i) && i@ == inventory) {
        Err("The source track inventory changed; reinspect it before converting"@)
    } else {
        match probe.video_details {
            None => Err("Video track policies require complete fresh processing facts"@),
            Some(d) => if d.streams@.len() != inventory.1.len() {
                Err("Fresh processing facts do not cover the complete source inventory"@)
            } else {
                match spec_fresh_mismatch(inventory.1, d.streams@) {
                    Some(m) => Err(m),
                    None => Ok(()),
                }
            },
        }
    }
}

/// Checks that fresh processing facts match the bound inventory stream by
/// stream.
pub fn validate_fresh_source(
    inventory: &crate::tracks::TrackInventory,
    probe: &ProbeResult,
) -> (r: Result<(), GoopError>)
    ensures
        match spec_validate_fresh_source(inventory@, *probe) {
            Ok(_) => r is Ok,
            Err(m) => (r matches Err(e) && is_invalid_with(e, m)),
        },
{
    let same = match &probe.track_inventory {
        Some(i) => i.same(inventory),
        None => false,
    };
    if !same {
        return Err(invalid("The source track inventory changed; reinspect it before converting"));
    }
    let details = match &probe.video_details {
        Some(d) => d,
        None => return Err(invalid("Video track policies require complete fresh processing facts")),
    };
    if details.streams.len() != inventory.streams.len() {
        return Err(invalid("Fresh processing facts do not cover the complete source inventory"));
    }
    let ghost ids = tracks_view(inventory.streams@);
    let ghost facts = details.streams@;
    let mut i: usize = 0;
    while i < inventory.streams.len()
        invariant
            ids == tracks_view(inventory.streams@),
            facts == details.streams@,
            probe.track_inventory matches Some(x) && x@ == inventory@,
            probe.video_details == Some(*details),
            facts.len() == ids.len(),
            i <= ids.len(),
            spec_fresh_mismatch(ids.take(i as int), facts.take(i as int)) is None,
        decreases ids.len() - i,
    {
        proof {
            assert(ids.take(i + 1).drop_last() =~= ids.take(i as int));
            assert(facts.take(i + 1).take(i as int) =~= facts.take(i as int));
            assert(ids.take(i + 1).last() == inventory.streams@[i as int]@);
            assert(facts.take(i + 1)[i as int] == facts[i as int]);
            assert(facts.take(i + 1).len() == i + 1);
        }
        let identity = &inventory.streams[i];
        let f = &details.streams[i];
        if identity.index != f.index || !str_eq(identity.codec_type.as_str(), f.codec_type.as_str()) {
            proof {
                assert(spec_fresh_mismatch(ids.take(i + 1), facts.take(i + 1)) == Some(
                    "Fresh processing facts do not match the bound source order and types"@,
                ));
                lemma_fresh_mismatch_sticks(ids, facts, i as int + 1);
            }
            return Err(
                invalid("Fresh processing facts do not match the bound source order and types"),
            );
        }
        match &identity.codec_name {
            TrackTextFact::Value { value } => {
                if !crate::video_options::opt_str_is(&f.codec_name, value.as_str()) {
                    proof {
                        assert(spec_fresh_mismatch(ids.take(i + 1), facts.take(i + 1)) == Some(
                            "Fresh processing codec facts do not match the bound source"@,
                        ));
                        lemma_fresh_mismatch_sticks(ids, facts, i as int + 1);
                    }
                    return Err(
                        invalid("Fresh processing codec facts do not match the bound source"),
                    );
                }
            },
            _ => {},
        }
        i = i + 1;
    }
    proof {
        assert(ids.take(ids.len() as int) =~= ids);
        assert(facts.take(ids.len() as int) =~= facts);
    }
    Ok(())
}

/// A mismatch in a prefix is the first mismatch of the whole list.
proof fn lemma_fresh_mismatch_sticks(ids: Seq<TrackView>, facts: Seq<VideoStreamInfo>, k: int)
    requires
        0 <= k <= ids.len(),
        facts.len() == ids.len(),
        spec_fresh_mismatch(ids.take(k), facts.take(k)) is Some,
    ensures
        spec_fresh_mismatch(ids, facts) == spec_fresh_mismatch(ids.take(k), facts.take(k)),
    decreases ids.len() - k,
{
    if k < ids.len() {
        assert(ids.take(k + 1).drop_last() =~= ids.take(k));
        assert(facts.take(k + 1).take(k) =~= facts.take(k));
        lemma_fresh_mismatch_sticks(ids, facts, k + 1);
    } else {
        assert(ids.take(k) =~= ids);
        assert(facts.take(k) =~= facts);
    }
}

// ---------------------------------------------------------------------------
// The resolver
// ---------------------------------------------------------------------------

/// Whether a stream is an audio or subtitle stream.
pub open spec fn is_auxiliary(t: TrackView) -> bool {
    t.codec_type == "audio"@ || t.codec_type == "subtitle"@
}

/// The first audio or subtitle stream without a known codec, refused.
pub open spec fn spec_unknown_codec(s: Seq<TrackView>) -> Option<Seq<char>>
    decreases s.len(),
{
    if s.len() == 0 {
        None
    } else {
        match spec_unknown_codec(s.drop_last()) {
            Some(m) => Some(m),
            None => {
                let t = s.last();
                if is_auxiliary(t) && spec_codec_value(t.codec_name) is None {
                    Some(
                        "Retained "@ + t.codec_type + " stream "@ + decimal(t.index as nat)
                            + " requires a known codec"@,
                    )
                } else {
                    None
                }
            },
        }
    }
}

/// Whether a stream is a retained audio stream.
pub open spec fn retained_audio(t: TrackView, audio: TrackStreamPolicy) -> bool {
    t.codec_type == "audio"@ && spec_policy_retains(audio, t.index)
}

/// MP4 and MOV promote a default audio stream; when audio is retained, one
/// retained stream must be the source default.
pub open spec fn spec_default_audio_missing(
    s: Seq<TrackView>,
    audio: TrackStreamPolicy,
    target: TargetFormat,
) -> bool {
    &&& (target == TargetFormat::Mp4 || target == TargetFormat::Mov)
    &&& exists|i: int| 0 <= i < s.len() && retained_audio(#[trigger] s[i], audio)
    &&& !exists|i: int|
        0 <= i < s.len() && retained_audio(#[trigger] s[i], audio) && s[i].default == Some(true)
}

/// The state of the stream-by-stream plan.
pub struct TrackPlanState {
    pub args: Seq<Seq<char>>,
    pub reencoded: bool,
    pub retained: Seq<OutcomeView>,
    pub omitted_audio: Seq<TrackView>,
    pub omitted_subtitles: Seq<TrackView>,
    pub audio_ordinal: nat,
    pub subtitle_ordinal: nat,
}

/// What the plan loop reads besides the stream.
pub struct TrackPlanContext {
    pub target: TargetFormat,
    pub audio: TrackStreamPolicy,
    pub subtitles: TrackStreamPolicy,
    pub copy_mode: bool,
    pub aac_available: bool,
}

/// The metadata and disposition arguments of one retained stream.
pub open spec fn spec_metadata_args(
    t: TrackView,
    target: TargetFormat,
    family: Seq<char>,
    ordinal: nat,
) -> Seq<Seq<char>> {
    let selector = family + ":"@ + decimal(ordinal);
    let mp4 = target == TargetFormat::Mp4 || target == TargetFormat::Mov;
    let title_name = if mp4 {
        "handler_name"@
    } else {
        "title"@
    };
    let language = match spec_text_value(t.language) {
        Some(v) => seq!["-metadata:s:"@ + selector, "language="@ + v],
        None => Seq::empty(),
    };
    let title = match spec_text_value(t.title) {
        Some(v) => seq!["-metadata:s:"@ + selector, title_name + "="@ + v],
        None => Seq::empty(),
    };
    let flags = if t.default == Some(true) && t.forced == Some(true) {
        "default+forced"@
    } else if t.default == Some(true) {
        "default"@
    } else if t.forced == Some(true) {
        "forced"@
    } else {
        "0"@
    };
    language + title + seq!["-disposition:"@ + selector, flags]
}

/// Whether `w` occurs in `s` as a contiguous run of characters.
pub open spec fn has_infix(s: Seq<char>, w: Seq<char>) -> bool {
    exists|i: int| 0 <= i && i + w.len() <= s.len() && #[trigger] s.subrange(i, i + w.len()) == w
}

/// The arguments of a retained stream end with its disposition: the
/// `-disposition:` option for the stream's own selector, then flags that name
/// `default` when the source marks the stream default, name `forced` when the
/// source marks it forced, and are `0` (every flag cleared) exactly when the
/// source marks it neither.
pub proof fn lemma_disposition_carries_source_flags(
    t: TrackView,
    target: TargetFormat,
    family: Seq<char>,
    ordinal: nat,
)
    ensures
        spec_metadata_args(t, target, family, ordinal).len() >= 2,
        spec_metadata_args(t, target, family, ordinal)[spec_metadata_args(
            t,
            target,
            family,
            ordinal,
        ).len() - 2] == "-disposition:"@ + family + ":"@ + decimal(ordinal),
        t.default == Some(true) ==> has_infix(
            spec_metadata_args(t, target, family, ordinal).last(),
            "default"@,
        ),
        t.forced == Some(true) ==> has_infix(
            spec_metadata_args(t, target, family, ordinal).last(),
            "forced"@,
        ),
        (spec_metadata_args(t, target, family, ordinal).last() == "0"@) <==> (t.default != Some(
            true,
        ) && t.forced != Some(true)),
{
    reveal_strlit("default+forced");
    reveal_strlit("default");
    reveal_strlit("forced");
    reveal_strlit("0");
    let a = spec_metadata_args(t, target, family, ordinal);
    assert("default+forced"@.len() != "0"@.len());
    assert("default"@.len() != "0"@.len());
    assert("forced"@.len() != "0"@.len());
    let flags = a.last();
    if t.default == Some(true) {
        assert(flags.subrange(0, 0int + "default"@.len()) == "default"@);
    }
    if t.forced == Some(true) {
        if t.default == Some(true) {
            assert(flags.subrange(8, 8int + "forced"@.len()) == "forced"@);
        } else {
            assert(flags.subrange(0, 0int + "forced"@.len()) == "forced"@);
        }
    }
}

/// A retained stream keeps its language and title: the arguments written for
/// it set `language=` to the source's language when it has one, and set its
/// title when it has one, under `handler_name=` in MP4 and MOV and under
/// `title=` in other containers, each for the stream's own selector. Nothing
/// else is written but the disposition.
pub proof fn lemma_stream_keeps_language_and_title(
    t: TrackView,
    target: TargetFormat,
    family: Seq<char>,
    ordinal: nat,
)
    ensures
        ({
            let a = spec_metadata_args(t, target, family, ordinal);
            let sel = "-metadata:s:"@ + family + ":"@ + decimal(ordinal);
            let mp4 = target == TargetFormat::Mp4 || target == TargetFormat::Mov;
            let nl: int = if spec_text_value(t.language) is Some {
                2
            } else {
                0
            };
            &&& a.len() == nl + (if spec_text_value(t.title) is Some {
                2int
            } else {
                0int
            }) + 2
            &&& spec_text_value(t.language) matches Some(v) ==> a[0] == sel && a[1]
                == "language="@ + v
            &&& spec_text_value(t.title) matches Some(v) ==> a[nl] == sel && a[nl + 1] == if mp4 {
                "handler_name="@ + v
            } else {
                "title="@ + v
            }
        }),
{
    reveal_strlit("handler_name");
    reveal_strlit("handler_name=");
    reveal_strlit("title");
    reveal_strlit("title=");
    reveal_strlit("=");
    let a = spec_metadata_args(t, target, family, ordinal);
    match spec_text_value(t.title) {
        Some(v) => {
            assert("handler_name"@ + "="@ + v =~= "handler_name="@ + v);
            assert("title"@ + "="@ + v =~= "title="@ + v);
        },
        None => {},
    }
}

/// When the plan keeps an audio or subtitle stream, it leaves the arguments
/// before it alone and appends `-map 0:<source index>`, then either a copy of
/// the stream (`-c:<a|s>:<ordinal> copy`) or, for audio only, an AAC encode
/// at 192 kbps (`-c:a:<ordinal> aac -b:a:<ordinal> 192k`); a subtitle is
/// always copied. The outcome it records is for that source stream and
/// carries the source's default and forced flags.
pub proof fn lemma_kept_stream_is_mapped_and_coded(
    st: TrackPlanState,
    t: TrackView,
    c: TrackPlanContext,
)
    requires
        spec_track_step(st, t, c) is Ok,
        spec_track_step(st, t, c)->Ok_0.retained.len() > st.retained.len(),
    ensures
        ({
            let next = spec_track_step(st, t, c)->Ok_0;
            let k = st.args.len() as int;
            let audio = t.codec_type == "audio"@;
            let ordinal = if audio {
                st.audio_ordinal
            } else {
                st.subtitle_ordinal
            };
            let outcome = next.retained.last();
            &&& next.retained.len() == st.retained.len() + 1
            &&& next.args.len() >= k + 4
            &&& next.args.subrange(0, k) == st.args
            &&& next.args[k] == "-map"@
            &&& next.args[k + 1] == "0:"@ + decimal(t.index as nat)
            &&& outcome.source == t
            &&& outcome.output_default == t.default
            &&& outcome.output_forced == t.forced
            &&& !audio ==> outcome.processing is Copied
            &&& outcome.processing is Copied ==> next.args[k + 2] == "-c:"@ + (if audio {
                "a"@
            } else {
                "s"@
            }) + ":"@ + decimal(ordinal) && next.args[k + 3] == "copy"@
            &&& outcome.processing is EncodedAac ==> audio && next.args.len() >= k + 6
                && next.args[k + 2] == "-c:a:"@ + decimal(ordinal) && next.args[k + 3] == "aac"@
                && next.args[k + 4] == "-b:a:"@ + decimal(ordinal) && next.args[k + 5] == "192k"@
        }),
{
    let next = spec_track_step(st, t, c)->Ok_0;
    let k = st.args.len() as int;
    assert(next.args.subrange(0, k) =~= st.args);
}

/// The selector family of an auxiliary stream: `a` for audio, `s` for
/// subtitles.
pub open spec fn stream_family(codec_type: Seq<char>) -> Seq<char> {
    if codec_type == "audio"@ {
        "a"@
    } else {
        "s"@
    }
}

/// When the plan keeps an audio or subtitle stream, the arguments it has
/// after that stream end with the stream's disposition flags: they name
/// `forced` when the source marks the stream forced, `default` when it marks
/// it default, and are `0` exactly when it marks it neither.
pub proof fn lemma_kept_stream_keeps_source_flags(
    st: TrackPlanState,
    t: TrackView,
    c: TrackPlanContext,
)
    requires
        spec_track_step(st, t, c) is Ok,
        spec_track_step(st, t, c)->Ok_0.retained.len() > st.retained.len(),
    ensures
        t.forced == Some(true) ==> has_infix(
            spec_track_step(st, t, c)->Ok_0.args.last(),
            "forced"@,
        ),
        t.default == Some(true) ==> has_infix(
            spec_track_step(st, t, c)->Ok_0.args.last(),
            "default"@,
        ),
        (spec_track_step(st, t, c)->Ok_0.args.last() == "0"@) <==> (t.default != Some(true)
            && t.forced != Some(true)),
        spec_track_step(st, t, c)->Ok_0.args.len() >= 2,
        spec_track_step(st, t, c)->Ok_0.args[spec_track_step(st, t, c)->Ok_0.args.len() - 2]
            == "-disposition:"@ + stream_family(t.codec_type) + ":"@ + decimal(
            if t.codec_type == "audio"@ {
                st.audio_ordinal
            } else {
                st.subtitle_ordinal
            },
        ),
{
    let is_audio = t.codec_type == "audio"@;
    let family = if is_audio {
        "a"@
    } else {
        "s"@
    };
    let ordinal = if is_audio {
        st.audio_ordinal
    } else {
        st.subtitle_ordinal
    };
    lemma_disposition_carries_source_flags(t, c.target, family, ordinal);
    let md = spec_metadata_args(t, c.target, family, ordinal);
    let next = spec_track_step(st, t, c)->Ok_0;
    assert(next.args.last() == md.last());
    assert(next.args[next.args.len() - 2] == md[md.len() - 2]);
}

/// One stream's step of the plan.
pub open spec fn spec_track_step(st: TrackPlanState, t: TrackView, c: TrackPlanContext) -> Result<
    TrackPlanState,
    Seq<char>,
> {
    if t.codec_type == "video"@ {
        Ok(st)
    } else if t.codec_type != "audio"@ && t.codec_type != "subtitle"@ {
        Err("Unsupported stream family in video track policy"@)
    } else {
        let is_audio = t.codec_type == "audio"@;
        let policy = if is_audio {
            c.audio
        } else {
            c.subtitles
        };
        let family = if is_audio {
            "a"@
        } else {
            "s"@
        };
        let ordinal = if is_audio {
            st.audio_ordinal
        } else {
            st.subtitle_ordinal
        };
        if !spec_policy_retains(policy, t.index) {
            if is_audio {
                Ok(TrackPlanState { omitted_audio: st.omitted_audio.push(t), ..st })
            } else {
                Ok(TrackPlanState { omitted_subtitles: st.omitted_subtitles.push(t), ..st })
            }
        } else {
            match spec_codec_value(t.codec_name) {
                None => Err(
                    "Retained "@ + t.codec_type + " stream "@ + decimal(t.index as nat)
                        + " requires a known codec"@,
                ),
                Some(codec) => {
                    let processing = if !is_audio {
                        if !spec_subtitle_copyable(c.target, codec) {
                            Err(
                                codec + " subtitle stream "@ + decimal(t.index as nat)
                                    + " cannot be copied into "@ + spec_extension(c.target),
                            )
                        } else {
                            Ok(VideoTrackProcessing::Copied)
                        }
                    } else if spec_audio_copyable(c.target, codec) {
                        Ok(VideoTrackProcessing::Copied)
                    } else if c.copy_mode {
                        Err(
                            "Copy streams cannot copy "@ + codec + " audio stream "@ + decimal(
                                t.index as nat,
                            ) + " into "@ + spec_extension(c.target),
                        )
                    } else if !c.aac_available {
                        Err("Required audio fallback encoder aac is unavailable"@)
                    } else {
                        Ok(VideoTrackProcessing::EncodedAac { bitrate_kbps: 192 })
                    };
                    match processing {
                        Err(m) => Err(m),
                        Ok(p) => {
                            let codec_args = match p {
                                VideoTrackProcessing::Copied => seq![
                                    "-c:"@ + family + ":"@ + decimal(ordinal),
                                    "copy"@,
                                ],
                                VideoTrackProcessing::EncodedAac { .. } => seq![
                                    "-c:a:"@ + decimal(ordinal),
                                    "aac"@,
                                    "-b:a:"@ + decimal(ordinal),
                                    "192k"@,
                                ],
                            };
                            let outcome = OutcomeView {
                                source: t,
                                output_stream_index: (st.retained.len() + 1) as u32,
                                output_type_index: ordinal as u32,
                                processing: p,
                                source_codec_tag: FactView::Missing,
                                output_codec_name: match p {
                                    VideoTrackProcessing::Copied => t.codec_name,
                                    VideoTrackProcessing::EncodedAac { .. } => FactView::Value(
                                        "aac"@,
                                    ),
                                },
                                output_codec_tag: FactView::Missing,
                                output_language: t.language,
                                output_title: t.title,
                                output_default: t.default,
                                output_forced: t.forced,
                            };
                            Ok(
                                TrackPlanState {
                                    args: st.args + seq!["-map"@, "0:"@ + decimal(t.index as nat)]
                                        + codec_args + spec_metadata_args(
                                        t,
                                        c.target,
                                        family,
                                        ordinal,
                                    ),
                                    reencoded: st.reencoded || p is EncodedAac,
                                    retained: st.retained.push(outcome),
                                    audio_ordinal: if is_audio {
                                        st.audio_ordinal + 1
                                    } else {
                                        st.audio_ordinal
                                    },
                                    subtitle_ordinal: if is_audio {
                                        st.subtitle_ordinal
                                    } else {
                                        st.subtitle_ordinal + 1
                                    },
                                    ..st
                                },
                            )
                        },
                    }
                },
            }
        }
    }
}

/// The plan over a list of streams, from a starting state.
pub open spec fn spec_track_fold(
    s: Seq<TrackView>,
    init: TrackPlanState,
    c: TrackPlanContext,
) -> Result<TrackPlanState, Seq<char>>
    decreases s.len(),
{
    if s.len() == 0 {
        Ok(init)
    } else {
        match spec_track_fold(s.drop_last(), init, c) {
            Err(m) => Err(m),
            Ok(st) => spec_track_step(st, s.last(), c),
        }
    }
}

/// Whether `args[j]` is the disposition option of the retained outcome `o`
/// (for its output selector) and `args[j + 1]` keeps the source's flags:
/// `forced` named when the source is forced, `default` when it is default,
/// and `0` exactly when it is neither.
pub open spec fn disposition_at(args: Seq<Seq<char>>, j: int, o: OutcomeView) -> bool {
    &&& 0 <= j && j + 1 < args.len()
    &&& args[j] == "-disposition:"@ + stream_family(o.source.codec_type) + ":"@ + decimal(
        o.output_type_index as nat,
    )
    &&& o.source.forced == Some(true) ==> has_infix(args[j + 1], "forced"@)
    &&& o.source.default == Some(true) ==> has_infix(args[j + 1], "default"@)
    &&& (args[j + 1] == "0"@) <==> (o.source.default != Some(true) && o.source.forced != Some(
        true,
    ))
}

/// Whether `args` write the disposition of the retained outcome `o`.
pub open spec fn disposition_written(args: Seq<Seq<char>>, o: OutcomeView) -> bool {
    exists|j: int| #[trigger] disposition_at(args, j, o)
}

/// Folding the plan over the streams writes, for every stream it keeps, a
/// disposition that keeps the source's flags.
proof fn lemma_fold_writes_dispositions(s: Seq<TrackView>, init: TrackPlanState, c: TrackPlanContext)
    requires
        spec_track_fold(s, init, c) is Ok,
        init.retained.len() == 0,
        init.audio_ordinal == 0,
        init.subtitle_ordinal == 0,
        s.len() <= u32::MAX,
    ensures
        spec_track_fold(s, init, c)->Ok_0.audio_ordinal + spec_track_fold(
            s,
            init,
            c,
        )->Ok_0.subtitle_ordinal == spec_track_fold(s, init, c)->Ok_0.retained.len(),
        spec_track_fold(s, init, c)->Ok_0.retained.len() <= s.len(),
        spec_track_fold(s, init, c)->Ok_0.args.len() >= init.args.len(),
        spec_track_fold(s, init, c)->Ok_0.args.subrange(0, init.args.len() as int) == init.args,
        forall|k: int|
            0 <= k < spec_track_fold(s, init, c)->Ok_0.retained.len() ==> disposition_written(
                spec_track_fold(s, init, c)->Ok_0.args,
                #[trigger] spec_track_fold(s, init, c)->Ok_0.retained[k],
            ),
    decreases s.len(),
{
    if s.len() > 0 {
        let p = s.drop_last();
        lemma_fold_writes_dispositions(p, init, c);
        let st = spec_track_fold(p, init, c)->Ok_0;
        let t = s.last();
        let next = spec_track_fold(s, init, c)->Ok_0;
        assert(next == spec_track_step(st, t, c)->Ok_0);
        if next.retained.len() > st.retained.len() {
            lemma_kept_stream_is_mapped_and_coded(st, t, c);
            lemma_kept_stream_keeps_source_flags(st, t, c);
            let k0 = st.args.len() as int;
            let n = next.args.len() as int;
            let o = next.retained.last();
            assert(disposition_at(next.args, n - 2, o));
            assert forall|k: int| 0 <= k < next.retained.len() implies disposition_written(
                next.args,
                #[trigger] next.retained[k],
            ) by {
                if k < st.retained.len() {
                    assert(next.retained[k] == st.retained[k]);
                    assert(disposition_written(st.args, st.retained[k]));
                    let j = choose|j: int| disposition_at(st.args, j, st.retained[k]);
                    assert(next.args.subrange(0, k0)[j] == next.args[j]);
                    assert(next.args.subrange(0, k0)[j + 1] == next.args[j + 1]);
                    assert(disposition_at(next.args, j, next.retained[k]));
                } else {
                    assert(next.retained[k] == o);
                }
            }
            assert(next.args.subrange(0, init.args.len() as int) =~= next.args.subrange(
                0,
                k0,
            ).subrange(0, init.args.len() as int));
        }
    }
}

/// A resolved track plan opens with the arguments of its video plan, and
/// every stream it keeps has its disposition written for its own output
/// selector, keeping the source's flags: `forced` when the source stream is
/// forced, `default` when it is default, and `0` (all flags cleared) only
/// when it is neither.
pub proof fn lemma_resolved_plan_keeps_dispositions(
    req: VideoTrackRequest,
    probe: ProbeResult,
    enc: Seq<Seq<char>>,
)
    requires
        spec_resolve_tracks(req, probe, enc) is Ok,
        req.track_options->Some_0->Video_source.inventory@.1.len() <= u32::MAX,
    ensures
        spec_resolve_tracks(req, probe, enc)->Ok_0.video.args.subrange(
            0,
            crate::video_options::spec_resolve(req.video, probe, enc, true)->Ok_0.args.len() as int,
        ) == crate::video_options::spec_resolve(req.video, probe, enc, true)->Ok_0.args,
        forall|k: int|
            0 <= k < spec_resolve_tracks(req, probe, enc)->Ok_0.retained.len()
                ==> disposition_written(
                spec_resolve_tracks(req, probe, enc)->Ok_0.video.args,
                #[trigger] spec_resolve_tracks(req, probe, enc)->Ok_0.retained[k],
            ),
{
    let opts = req.track_options->Some_0;
    let source = opts->Video_source;
    let inv = source.inventory@;
    let base = crate::video_options::spec_resolve(req.video, probe, enc, true)->Ok_0;
    let c = TrackPlanContext {
        target: req.video.target,
        audio: opts->Video_audio,
        subtitles: opts->Video_subtitles,
        copy_mode: req.video.video_options == Some(VideoConvertOptions::Copy),
        aac_available: enc.contains("aac"@),
    };
    let init = TrackPlanState {
        args: base.args,
        reencoded: base.reencoded,
        retained: Seq::empty(),
        omitted_audio: Seq::empty(),
        omitted_subtitles: Seq::empty(),
        audio_ordinal: 0,
        subtitle_ordinal: 0,
    };
    lemma_fold_writes_dispositions(inv.1, init, c);
}

/// An error in a prefix of the streams is the error of the whole list.
proof fn lemma_track_fold_error_sticks(
    s: Seq<TrackView>,
    init: TrackPlanState,
    c: TrackPlanContext,
    k: int,
)
    requires
        0 <= k <= s.len(),
        spec_track_fold(s.take(k), init, c) is Err,
    ensures
        spec_track_fold(s, init, c) == spec_track_fold(s.take(k), init, c),
    decreases s.len() - k,
{
    if k < s.len() {
        assert(s.take(k + 1).drop_last() =~= s.take(k));
        lemma_track_fold_error_sticks(s, init, c, k + 1);
    } else {
        assert(s.take(k) =~= s);
    }
}

/// The count of streams, as the notices phrase it.
pub open spec fn count_notice(n: nat, what: Seq<char>) -> Seq<Seq<char>> {
    if n > 0 {
        seq![decimal(n) + what]
    } else {
        Seq::empty()
    }
}

/// The number of retained streams encoded as AAC.
pub open spec fn encoded_count(r: Seq<OutcomeView>) -> nat
    decreases r.len(),
{
    if r.len() == 0 {
        0
    } else {
        encoded_count(r.drop_last()) + if r.last().processing is EncodedAac {
            1nat
        } else {
            0nat
        }
    }
}

/// A resolved plan with stream policies as values.
pub struct ResolvedTrackView {
    pub video: ResolvedVideoView,
    pub retained: Seq<OutcomeView>,
    pub omitted_audio: Seq<TrackView>,
    pub omitted_subtitles: Seq<TrackView>,
    pub notices: Seq<Seq<char>>,
}

/// The plan for a video conversion with stream policies, or why it is
/// refused.
pub open spec fn spec_resolve_tracks(
    req: VideoTrackRequest,
    probe: ProbeResult,
    enc: Seq<Seq<char>>,
) -> Result<ResolvedTrackView, Seq<char>> {
    match req.track_options {
        Some(TrackConvertOptions::Video { source, audio, subtitles }) => {
            let inv = source.inventory@;
            match spec_validate_fresh_source(inv, probe) {
                Err(m) => Err(m),
                Ok(_) => match spec_unknown_codec(inv.1) {
                    Some(m) => Err(m),
                    None => if spec_default_audio_missing(inv.1, audio, req.video.target) {
                        Err(
                            "MP4 and MOV require one retained source-default audio stream; the muxer would otherwise promote a different track"@,
                        )
                    } else {
                        match crate::video_options::spec_resolve(req.video, probe, enc, true) {
                            Err(m) => Err(m),
                            Ok(base) => {
                                let c = TrackPlanContext {
                                    target: req.video.target,
                                    audio,
                                    subtitles,
                                    copy_mode: req.video.video_options == Some(
                                        VideoConvertOptions::Copy,
                                    ),
                                    aac_available: enc.contains("aac"@),
                                };
                                let init = TrackPlanState {
                                    args: base.args,
                                    reencoded: base.reencoded,
                                    retained: Seq::empty(),
                                    omitted_audio: Seq::empty(),
                                    omitted_subtitles: Seq::empty(),
                                    audio_ordinal: 0,
                                    subtitle_ordinal: 0,
                                };
                                match spec_track_fold(inv.1, init, c) {
                                    Err(m) => Err(m),
                                    Ok(st) => Ok(
                                        ResolvedTrackView {
                                            video: ResolvedVideoView {
                                                args: st.args,
                                                reencoded: st.reencoded,
                                                ..base
                                            },
                                            retained: st.retained,
                                            omitted_audio: st.omitted_audio,
                                            omitted_subtitles: st.omitted_subtitles,
                                            notices: count_notice(
                                                st.omitted_audio.len(),
                                                " audio stream(s) omitted by request."@,
                                            ) + count_notice(
                                                st.omitted_subtitles.len(),
                                                " subtitle stream(s) omitted by request."@,
                                            ) + count_notice(
                                                encoded_count(st.retained),
                                                " incompatible audio stream(s) encoded as AAC at 192 kbps."@,
                                            ),
                                        },
                                    ),
                                }
                            },
                        }
                    },
                },
            }
        },
        _ => Err("Explicit video track policies require a source-bound video policy"@),
    }
}

impl View for ResolvedVideoTrackPlan {
    type V = ResolvedTrackView;

    open spec fn view(&self) -> ResolvedTrackView {
        ResolvedTrackView {
            video: ResolvedVideoPlan { plan: self.plan, summary: self.video_summary }@,
            retained: outcomes_view(self.track_summary.retained@),
            omitted_audio: tracks_view(self.track_summary.omitted_audio@),
            omitted_subtitles: tracks_view(self.track_summary.omitted_subtitles@),
            notices: views(self.track_summary.notices@),
        }
    }
}


/// The refusal of an auxiliary stream without a known codec.
fn unknown_codec_error(t: &TrackIdentity) -> (e: GoopError)
    ensures
        is_invalid_with(
            e,
            "Retained "@ + t.codec_type@ + " stream "@ + decimal(t.index as nat)
                + " requires a known codec"@,
        ),
{
    let mut m = owned("Retained ");
    push_str(&mut m, t.codec_type.as_str());
    push_str(&mut m, " stream ");
    let d = decimal_string(t.index as u64);
    push_str(&mut m, d.as_str());
    push_str(&mut m, " requires a known codec");
    invalid_owned(m)
}

/// Whether a stream is an audio or subtitle stream.
fn auxiliary(t: &TrackIdentity) -> (r: bool)
    ensures
        r == is_auxiliary(t@),
{
    str_eq(t.codec_type.as_str(), "audio") || str_eq(t.codec_type.as_str(), "subtitle")
}

/// Refuses the first audio or subtitle stream without a known codec.
fn check_known_codecs(tracks: &Vec<TrackIdentity>) -> (r: Result<(), GoopError>)
    ensures
        match spec_unknown_codec(tracks_view(tracks@)) {
            None => r is Ok,
            Some(m) => (r matches Err(e) && is_invalid_with(e, m)),
        },
{
    let ghost s = tracks_view(tracks@);
    let mut i: usize = 0;
    while i < tracks.len()
        invariant
            s == tracks_view(tracks@),
            i <= s.len(),
            spec_unknown_codec(s.take(i as int)) is None,
        decreases s.len() - i,
    {
        proof {
            assert(s.take(i + 1).drop_last() =~= s.take(i as int));
            assert(s.take(i + 1).last() == tracks@[i as int]@);
        }
        let t = &tracks[i];
        if auxiliary(t) && codec_value_from_fact(&t.codec_name).is_none() {
            proof {
                lemma_unknown_codec_sticks(s, i as int + 1);
            }
            return Err(unknown_codec_error(t));
        }
        i = i + 1;
    }
    assert(s.take(s.len() as int) =~= s);
    Ok(())
}

proof fn lemma_unknown_codec_sticks(s: Seq<TrackView>, k: int)
    requires
        0 <= k <= s.len(),
        spec_unknown_codec(s.take(k)) is Some,
    ensures
        spec_unknown_codec(s) == spec_unknown_codec(s.take(k)),
    decreases s.len() - k,
{
    if k < s.len() {
        assert(s.take(k + 1).drop_last() =~= s.take(k));
        lemma_unknown_codec_sticks(s, k + 1);
    } else {
        assert(s.take(k) =~= s);
    }
}

/// Whether MP4 or MOV output would lack a retained source-default audio
/// stream.
fn default_audio_missing(
    tracks: &Vec<TrackIdentity>,
    audio: &TrackStreamPolicy,
    target: TargetFormat,
) -> (r: bool)
    ensures
        r == spec_default_audio_missing(tracks_view(tracks@), *audio, target),
{
    if !(target == TargetFormat::Mp4 || target == TargetFormat::Mov) {
        return false;
    }
    let ghost s = tracks_view(tracks@);
    let mut count: usize = 0;
    let mut has_default = false;
    let mut i: usize = 0;
    while i < tracks.len()
        invariant
            s == tracks_view(tracks@),
            i <= s.len(),
            count <= i,
            (count > 0) == exists|j: int| 0 <= j < i && retained_audio(#[trigger] s[j], *audio),
            has_default == exists|j: int|
                0 <= j < i && retained_audio(#[trigger] s[j], *audio) && s[j].default == Some(
                    true,
                ),
        decreases s.len() - i,
    {
        let t = &tracks[i];
        assert(s[i as int] == t@);
        if str_eq(t.codec_type.as_str(), "audio") && policy_retains(audio, t.index) {
            count = count + 1;
            if t.disposition.default == Some(true) {
                has_default = true;
            }
        }
        i = i + 1;
    }
    count > 0 && !has_default
}

/// Appends the metadata and disposition arguments of one retained stream.
fn push_metadata_and_disposition(
    args: &mut Vec<String>,
    track: &TrackIdentity,
    target: TargetFormat,
    family: &str,
    ordinal: u32,
)
    ensures
        views(final(args)@) == views(old(args)@) + spec_metadata_args(
            track@,
            target,
            family@,
            ordinal as nat,
        ),
{
    let ghost start = views(args@);
    let mut selector = owned(family);
    push_str(&mut selector, ":");
    let d = decimal_string(ordinal as u64);
    push_str(&mut selector, d.as_str());
    let mp4 = target == TargetFormat::Mp4 || target == TargetFormat::Mov;
    match text_value(&track.language) {
        Some(v) => {
            let mut a = owned("-metadata:s:");
            push_str(&mut a, selector.as_str());
            let mut b = owned("language=");
            push_str(&mut b, v);
            push_owned(args, a);
            push_owned(args, b);
        },
        None => {},
    }
    match text_value(&track.title) {
        Some(v) => {
            let mut a = owned("-metadata:s:");
            push_str(&mut a, selector.as_str());
            let mut b = if mp4 {
                owned("handler_name")
            } else {
                owned("title")
            };
            push_str(&mut b, "=");
            push_str(&mut b, v);
            push_owned(args, a);
            push_owned(args, b);
        },
        None => {},
    }
    let default = track.disposition.default == Some(true);
    let forced = track.disposition.forced == Some(true);
    let flags = if default && forced {
        "default+forced"
    } else if default {
        "default"
    } else if forced {
        "forced"
    } else {
        "0"
    };
    let mut a = owned("-disposition:");
    push_str(&mut a, selector.as_str());
    push_owned(args, a);
    push_arg(args, flags);
    proof {
        let t = track@;
        let sel = family@ + ":"@ + decimal(ordinal as nat);
        assert(selector@ == sel);
        let language = match spec_text_value(t.language) {
            Some(v) => seq!["-metadata:s:"@ + sel, "language="@ + v],
            None => Seq::<Seq<char>>::empty(),
        };
        let title_name = if mp4 {
            "handler_name"@
        } else {
            "title"@
        };
        let title = match spec_text_value(t.title) {
            Some(v) => seq!["-metadata:s:"@ + sel, title_name + "="@ + v],
            None => Seq::<Seq<char>>::empty(),
        };
        assert(views(args@) =~= start + language + title + seq![
            "-disposition:"@ + sel,
            flags@,
        ]);
    }
}

/// Appends an owned argument.
fn push_owned(args: &mut Vec<String>, s: String)
    ensures
        views(final(args)@) == views(old(args)@).push(s@),
{
    let ghost before = args@;
    args.push(s);
    proof {
        assert(views(args@) =~= views(before).push(s@));
    }
}

/// `prefix` + the decimal `n` + `suffix`.
fn decorated(prefix: &str, n: u32, suffix: &str) -> (r: String)
    ensures
        r@ == prefix@ + decimal(n as nat) + suffix@,
{
    let mut m = owned(prefix);
    let d = decimal_string(n as u64);
    push_str(&mut m, d.as_str());
    push_str(&mut m, suffix);
    m
}

/// The plan under construction, stream by stream.
pub struct TrackPlanBuild {
    pub args: Vec<String>,
    pub reencoded: bool,
    pub retained: Vec<VideoTrackStreamOutcome>,
    pub omitted_audio: Vec<TrackIdentity>,
    pub omitted_subtitles: Vec<TrackIdentity>,
    pub audio_ordinal: u32,
    pub subtitle_ordinal: u32,
}

/// The plan under construction as values.
pub open spec fn build_view(b: TrackPlanBuild) -> TrackPlanState {
    TrackPlanState {
        args: views(b.args@),
        reencoded: b.reencoded,
        retained: outcomes_view(b.retained@),
        omitted_audio: tracks_view(b.omitted_audio@),
        omitted_subtitles: tracks_view(b.omitted_subtitles@),
        audio_ordinal: b.audio_ordinal as nat,
        subtitle_ordinal: b.subtitle_ordinal as nat,
    }
}

/// The loop context as a value.
pub open spec fn plan_context(
    target: TargetFormat,
    audio: TrackStreamPolicy,
    subtitles: TrackStreamPolicy,
    copy_mode: bool,
    aac_available: bool,
) -> TrackPlanContext {
    TrackPlanContext { target, audio, subtitles, copy_mode, aac_available }
}

/// How a retained stream is carried, or why it cannot be.
fn processing_for(
    t: &TrackIdentity,
    codec: &str,
    is_audio: bool,
    target: TargetFormat,
    copy_mode: bool,
    aac_available: bool,
) -> (r: Result<VideoTrackProcessing, GoopError>)
    ensures
        !is_audio ==> (if !spec_subtitle_copyable(target, codec@) {
            r matches Err(e) && is_invalid_with(
                e,
                codec@ + " subtitle stream "@ + decimal(t.index as nat) + " cannot be copied into "@
                    + spec_extension(target),
            )
        } else {
            r == Ok::<VideoTrackProcessing, GoopError>(VideoTrackProcessing::Copied)
        }),
        is_audio ==> (if spec_audio_copyable(target, codec@) {
            r == Ok::<VideoTrackProcessing, GoopError>(VideoTrackProcessing::Copied)
        } else if copy_mode {
            r matches Err(e) && is_invalid_with(
                e,
                "Copy streams cannot copy "@ + codec@ + " audio stream "@ + decimal(t.index as nat)
                    + " into "@ + spec_extension(target),
            )
        } else if !aac_available {
            r matches Err(e) && is_invalid_with(
                e,
                "Required audio fallback encoder aac is unavailable"@,
            )
        } else {
            r == Ok::<VideoTrackProcessing, GoopError>(
                VideoTrackProcessing::EncodedAac { bitrate_kbps: 192 },
            )
        }),
{
    if !is_audio {
        if !subtitle_copyable(target, codec) {
            let mut m = owned(codec);
            push_str(&mut m, " subtitle stream ");
            let d = decimal_string(t.index as u64);
            push_str(&mut m, d.as_str());
            push_str(&mut m, " cannot be copied into ");
            push_str(&mut m, target.extension_str());
            return Err(invalid_owned(m));
        }
        Ok(VideoTrackProcessing::Copied)
    } else if audio_copyable(target, codec) {
        Ok(VideoTrackProcessing::Copied)
    } else if copy_mode {
        let mut m = owned("Copy streams cannot copy ");
        push_str(&mut m, codec);
        push_str(&mut m, " audio stream ");
        let d = decimal_string(t.index as u64);
        push_str(&mut m, d.as_str());
        push_str(&mut m, " into ");
        push_str(&mut m, target.extension_str());
        Err(invalid_owned(m))
    } else if !aac_available {
        Err(invalid("Required audio fallback encoder aac is unavailable"))
    } else {
        Ok(VideoTrackProcessing::EncodedAac { bitrate_kbps: 192 })
    }
}

/// Appends the map, codec, metadata and disposition arguments of one
/// retained stream.
fn push_stream_args(
    args: &mut Vec<String>,
    t: &TrackIdentity,
    processing: VideoTrackProcessing,
    target: TargetFormat,
    family: &str,
    ordinal: u32,
)
    ensures
        views(final(args)@) == views(old(args)@) + seq!["-map"@, "0:"@ + decimal(t.index as nat)]
            + match processing {
            VideoTrackProcessing::Copied => seq![
                "-c:"@ + family@ + ":"@ + decimal(ordinal as nat),
                "copy"@,
            ],
            VideoTrackProcessing::EncodedAac { .. } => seq![
                "-c:a:"@ + decimal(ordinal as nat),
                "aac"@,
                "-b:a:"@ + decimal(ordinal as nat),
                "192k"@,
            ],
        } + spec_metadata_args(t@, target, family@, ordinal as nat),
{
    let ghost start = views(args@);
    push_arg(args, "-map");
    push_owned(args, with_decimal("0:", t.index as u64));
    match processing {
        VideoTrackProcessing::Copied => {
            let mut a = owned("-c:");
            push_str(&mut a, family);
            push_str(&mut a, ":");
            let d = decimal_string(ordinal as u64);
            push_str(&mut a, d.as_str());
            push_owned(args, a);
            push_arg(args, "copy");
        },
        VideoTrackProcessing::EncodedAac { .. } => {
            proof {
                reveal_strlit("");
                assert(""@ =~= Seq::<char>::empty());
            }
            let a = decorated("-c:a:", ordinal, "");
            assert(a@ =~= "-c:a:"@ + decimal(ordinal as nat));
            push_owned(args, a);
            push_arg(args, "aac");
            let b = decorated("-b:a:", ordinal, "");
            assert(b@ =~= "-b:a:"@ + decimal(ordinal as nat));
            push_owned(args, b);
            push_arg(args, "192k");
        },
    }
    let ghost mid = views(args@);
    push_metadata_and_disposition(args, t, target, family, ordinal);
    proof {
        assert(mid =~= start + seq!["-map"@, "0:"@ + decimal(t.index as nat)] + match processing {
            VideoTrackProcessing::Copied => seq![
                "-c:"@ + family@ + ":"@ + decimal(ordinal as nat),
                "copy"@,
            ],
            VideoTrackProcessing::EncodedAac { .. } => seq![
                "-c:a:"@ + decimal(ordinal as nat),
                "aac"@,
                "-b:a:"@ + decimal(ordinal as nat),
                "192k"@,
            ],
        });
    }
}

/// Plans one stream of the bound inventory.
#[verifier::rlimit(50)]
fn plan_track(
    b: &mut TrackPlanBuild,
    t: &TrackIdentity,
    target: TargetFormat,
    audio: &TrackStreamPolicy,
    subtitles: &TrackStreamPolicy,
    copy_mode: bool,
    aac_available: bool,
) -> (r: Result<(), GoopError>)
    requires
        old(b).retained@.len() < u32::MAX - 1,
        old(b).audio_ordinal < u32::MAX - 1,
        old(b).subtitle_ordinal < u32::MAX - 1,
    ensures
        match spec_track_step(
            build_view(*old(b)),
            t@,
            plan_context(target, *audio, *subtitles, copy_mode, aac_available),
        ) {
            Ok(n) => r is Ok && build_view(*final(b)) == n,
            Err(m) => (r matches Err(e) && is_invalid_with(e, m)),
        },
        final(b).retained@.len() <= old(b).retained@.len() + 1,
        final(b).omitted_audio@.len() <= old(b).omitted_audio@.len() + 1,
        final(b).omitted_subtitles@.len() <= old(b).omitted_subtitles@.len() + 1,
        final(b).audio_ordinal <= old(b).audio_ordinal + 1,
        final(b).subtitle_ordinal <= old(b).subtitle_ordinal + 1,
{
    let is_video = str_eq(t.codec_type.as_str(), "video");
    let is_audio = str_eq(t.codec_type.as_str(), "audio");
    let is_subtitle = str_eq(t.codec_type.as_str(), "subtitle");
    if is_video {
        return Ok(());
    }
    if !is_audio && !is_subtitle {
        return Err(invalid("Unsupported stream family in video track policy"));
    }
    let keeps = if is_audio {
        policy_retains(audio, t.index)
    } else {
        policy_retains(subtitles, t.index)
    };
    if !keeps {
        if is_audio {
            let ghost before = b.omitted_audio@;
            b.omitted_audio.push(t.copy());
            proof {
                assert(tracks_view(b.omitted_audio@) =~= tracks_view(before).push(t@));
            }
        } else {
            let ghost before = b.omitted_subtitles@;
            b.omitted_subtitles.push(t.copy());
            proof {
                assert(tracks_view(b.omitted_subtitles@) =~= tracks_view(before).push(t@));
            }
        }
        return Ok(());
    }
    let codec = match codec_value_from_fact(&t.codec_name) {
        Some(c) => c,
        None => return Err(unknown_codec_error(t)),
    };
    let family = if is_audio {
        "a"
    } else {
        "s"
    };
    let ordinal = if is_audio {
        b.audio_ordinal
    } else {
        b.subtitle_ordinal
    };
    let processing = match processing_for(t, codec, is_audio, target, copy_mode, aac_available) {
        Ok(p) => p,
        Err(e) => return Err(e),
    };
    push_stream_args(&mut b.args, t, processing, target, family, ordinal);
    match processing {
        VideoTrackProcessing::EncodedAac { .. } => {
            b.reencoded = true;
        },
        VideoTrackProcessing::Copied => {},
    }
    let output_codec_name = match processing {
        VideoTrackProcessing::Copied => t.codec_name.copy(),
        VideoTrackProcessing::EncodedAac { .. } => TrackTextFact::Value { value: owned("aac") },
    };
    let outcome = VideoTrackStreamOutcome {
        source: t.copy(),
        output_stream_index: b.retained.len() as u32 + 1,
        output_type_index: ordinal,
        processing,
        source_codec_tag: TrackTextFact::Missing,
        output_codec_name,
        output_codec_tag: TrackTextFact::Missing,
        output_language: t.language.copy(),
        output_title: t.title.copy(),
        output_default: t.disposition.default,
        output_forced: t.disposition.forced,
    };
    let ghost before = b.retained@;
    b.retained.push(outcome);
    proof {
        assert(outcomes_view(b.retained@) =~= outcomes_view(before).push(outcome@));
    }
    if is_audio {
        b.audio_ordinal = b.audio_ordinal + 1;
    } else {
        b.subtitle_ordinal = b.subtitle_ordinal + 1;
    }
    Ok(())
}

/// Plans every stream of the bound inventory, in order.
fn plan_tracks(
    b: &mut TrackPlanBuild,
    tracks: &Vec<TrackIdentity>,
    target: TargetFormat,
    audio: &TrackStreamPolicy,
    subtitles: &TrackStreamPolicy,
    copy_mode: bool,
    aac_available: bool,
) -> (r: Result<(), GoopError>)
    requires
        tracks@.len() < u32::MAX - 1,
        old(b).retained@.len() == 0,
        old(b).omitted_audio@.len() == 0,
        old(b).omitted_subtitles@.len() == 0,
        old(b).audio_ordinal == 0,
        old(b).subtitle_ordinal == 0,
    ensures
        match spec_track_fold(
            tracks_view(tracks@),
            build_view(*old(b)),
            plan_context(target, *audio, *subtitles, copy_mode, aac_available),
        ) {
            Ok(n) => r is Ok && build_view(*final(b)) == n,
            Err(m) => (r matches Err(e) && is_invalid_with(e, m)),
        },
        final(b).retained@.len() <= tracks@.len(),
        final(b).omitted_audio@.len() <= tracks@.len(),
        final(b).omitted_subtitles@.len() <= tracks@.len(),
{
    let ghost s = tracks_view(tracks@);
    let ghost init = build_view(*b);
    let ghost c = plan_context(target, *audio, *subtitles, copy_mode, aac_available);
    assert(s.take(0) =~= Seq::<TrackView>::empty());
    let mut i: usize = 0;
    while i < tracks.len()
        invariant
            s == tracks_view(tracks@),
            c == plan_context(target, *audio, *subtitles, copy_mode, aac_available),
            init == build_view(*old(b)),
            tracks@.len() < u32::MAX - 1,
            i <= s.len(),
            b.retained@.len() <= i,
            b.omitted_audio@.len() <= i,
            b.omitted_subtitles@.len() <= i,
            b.audio_ordinal <= i,
            b.subtitle_ordinal <= i,
            spec_track_fold(s.take(i as int), init, c) == Ok::<TrackPlanState, Seq<char>>(
                build_view(*b),
            ),
        decreases s.len() - i,
    {
        proof {
            assert(s.take(i + 1).drop_last() =~= s.take(i as int));
            assert(s.take(i + 1).last() == tracks@[i as int]@);
        }
        let ghost before = build_view(*b);
        match plan_track(b, &tracks[i], target, audio, subtitles, copy_mode, aac_available) {
            Ok(_) => {},
            Err(e) => {
                proof {
                    assert(spec_track_fold(s.take(i + 1), init, c) == spec_track_step(
                        before,
                        tracks@[i as int]@,
                        c,
                    ));
                    assert(spec_track_step(before, tracks@[i as int]@, c) is Err);
                    lemma_track_fold_error_sticks(s, init, c, i as int + 1);
                }
                return Err(e);
            },
        }
        i = i + 1;
    }
    assert(s.take(s.len() as int) =~= s);
    Ok(())
}

/// Resolves explicit video settings together with exact-map audio and
/// subtitle policies over a bound source.
pub fn resolve(req: &VideoTrackRequest, probe: &ProbeResult, encoders: &DetectedEncoders) -> (r:
    Result<ResolvedVideoTrackPlan, GoopError>)
    requires
        req.track_options matches Some(TrackConvertOptions::Video { source, .. })
            ==> source.inventory.streams@.len() < u32::MAX - 1,
    ensures
        match spec_resolve_tracks(*req, *probe, views(encoders.available@)) {
            Ok(v) => (r matches Ok(p) && p@ == v && (req.track_options matches Some(o)
                && p.track_summary.requested@ == o@)),
            Err(m) => (r matches Err(e) && is_invalid_with(e, m)),
        },
{
    let requested = match &req.track_options {
        Some(o) => o,
        None => return Err(
            invalid("Explicit video track policies require a source-bound video policy"),
        ),
    };
    let (source, audio, subtitles) = match requested {
        TrackConvertOptions::Video { source, audio, subtitles } => (source, audio, subtitles),
        _ => return Err(
            invalid("Explicit video track policies require a source-bound video policy"),
        ),
    };
    match validate_fresh_source(&source.inventory, probe) {
        Ok(_) => {},
        Err(e) => return Err(e),
    }
    let tracks = &source.inventory.streams;
    match check_known_codecs(tracks) {
        Ok(_) => {},
        Err(e) => return Err(e),
    }
    let target = req.video.target;
    if default_audio_missing(tracks, audio, target) {
        return Err(
            invalid(
                "MP4 and MOV require one retained source-default audio stream; the muxer would otherwise promote a different track",
            ),
        );
    }
    let base = match crate::video_options::resolve_without_auxiliary(&req.video, probe, encoders) {
        Ok(b) => b,
        Err(e) => return Err(e),
    };
    let ghost base_view = base@;
    let copy_mode = req.video.video_options == Some(VideoConvertOptions::Copy);
    let aac_available = encoders.is_available("aac");
    let ResolvedVideoPlan { plan, summary } = base;
    let Plan { args: base_args, video_filters, reencoded: base_reencoded, ext } = plan;
    let mut b = TrackPlanBuild {
        args: base_args,
        reencoded: base_reencoded,
        retained: Vec::new(),
        omitted_audio: Vec::new(),
        omitted_subtitles: Vec::new(),
        audio_ordinal: 0,
        subtitle_ordinal: 0,
    };
    proof {
        assert(outcomes_view(b.retained@) =~= Seq::<OutcomeView>::empty());
        assert(tracks_view(b.omitted_audio@) =~= Seq::<TrackView>::empty());
        assert(tracks_view(b.omitted_subtitles@) =~= Seq::<TrackView>::empty());
    }
    match plan_tracks(&mut b, tracks, target, audio, subtitles, copy_mode, aac_available) {
        Ok(_) => {},
        Err(e) => return Err(e),
    }
    let TrackPlanBuild { args, reencoded, retained, omitted_audio, omitted_subtitles, .. } = b;
    let mut notices: Vec<String> = Vec::new();
    proof {
        reveal_strlit("");
        assert(""@ =~= Seq::<char>::empty());
        assert(tracks_view(omitted_audio@).len() == omitted_audio@.len());
        assert(tracks_view(omitted_subtitles@).len() == omitted_subtitles@.len());
    }
    let na = omitted_audio.len();
    let ns = omitted_subtitles.len();
    let ghost audio_part = count_notice(na as nat, " audio stream(s) omitted by request."@);
    let ghost subtitle_part = count_notice(ns as nat, " subtitle stream(s) omitted by request."@);
    if na > 0 {
        let m = decorated("", na as u32, " audio stream(s) omitted by request.");
        push_owned(&mut notices, m);
    }
    assert(views(notices@) =~= audio_part);
    if ns > 0 {
        let m = decorated("", ns as u32, " subtitle stream(s) omitted by request.");
        push_owned(&mut notices, m);
    }
    assert(views(notices@) =~= audio_part + subtitle_part);
    let encoded = count_encoded(&retained);
    let ghost encoded_part = count_notice(
        encoded as nat,
        " incompatible audio stream(s) encoded as AAC at 192 kbps."@,
    );
    if encoded > 0 {
        let m = decorated("", encoded, " incompatible audio stream(s) encoded as AAC at 192 kbps.");
        push_owned(&mut notices, m);
    }
    assert(views(notices@) =~= audio_part + subtitle_part + encoded_part);
    Ok(
        ResolvedVideoTrackPlan {
            plan: Plan { args, video_filters, reencoded, ext },
            video_summary: summary,
            track_summary: VideoTrackExecutionSummary {
                requested: requested.copy(),
                retained,
                omitted_audio,
                omitted_subtitles,
                notices,
            },
        },
    )
}

/// The number of retained streams encoded as AAC.
fn count_encoded(retained: &Vec<VideoTrackStreamOutcome>) -> (r: u32)
    requires
        retained@.len() < u32::MAX,
    ensures
        r == encoded_count(outcomes_view(retained@)),
{
    let ghost s = outcomes_view(retained@);
    let mut n: u32 = 0;
    let mut i: usize = 0;
    while i < retained.len()
        invariant
            s == outcomes_view(retained@),
            retained@.len() < u32::MAX,
            i <= retained@.len(),
            n == encoded_count(s.take(i as int)),
            n <= i,
        decreases retained@.len() - i,
    {
        proof {
            assert(s.take(i + 1).drop_last() =~= s.take(i as int));
        }
        match retained[i].processing {
            VideoTrackProcessing::EncodedAac { .. } => {
                n = n + 1;
            },
            VideoTrackProcessing::Copied => {},
        }
        i = i + 1;
    }
    assert(s.take(s.len() as int) =~= s);
    n
}


// ---------------------------------------------------------------------------
// Capabilities
// ---------------------------------------------------------------------------

/// Whether a mode is available and, if not, why.
#[derive(Debug, Clone, PartialEq, Eq)]
pub struct TrackModeAvailability {
    pub available: bool,
    pub reason: Option<String>,
}

/// What one audio or subtitle stream offers.
#[derive(Debug, Clone, PartialEq, Eq)]
pub struct VideoTrackChoiceCapability {
    pub track: TrackIdentity,
    pub copy: TrackModeAvailability,
    pub custom: TrackModeAvailability,
}

/// The policies a stream family offers for one video mode.
#[derive(Debug, Clone, PartialEq, Eq)]
pub struct VideoTrackPolicyModeCapabilities {
    pub keep_all: TrackModeAvailability,
    pub choose: TrackModeAvailability,
    pub none: TrackModeAvailability,
}

/// The policies a stream family offers under Copy and under Custom.
#[derive(Debug, Clone, PartialEq, Eq)]
pub struct VideoTrackPolicyCapabilities {
    pub copy: VideoTrackPolicyModeCapabilities,
    pub custom: VideoTrackPolicyModeCapabilities,
}

/// What stream policies a bound source offers.
#[derive(Debug, Clone, PartialEq, Eq)]
pub struct VideoTrackSettingsCapabilities {
    pub source: crate::tracks::TrackSourceBinding,
    pub audio_policy: VideoTrackPolicyCapabilities,
    pub subtitle_policy: VideoTrackPolicyCapabilities,
    pub audio_tracks: Vec<VideoTrackChoiceCapability>,
    pub subtitle_tracks: Vec<VideoTrackChoiceCapability>,
}

/// Whether a record says `reason` (available when there is none).
pub open spec fn mode_is(m: TrackModeAvailability, reason: Option<Seq<char>>) -> bool {
    m.available == (reason is None) && opt_string(m.reason) == reason
}

/// A stream's choice as values: the stream, and why Copy and Custom are
/// refused (`None` when available).
pub struct ChoiceView {
    pub track: TrackView,
    pub copy: Option<Seq<char>>,
    pub custom: Option<Seq<char>>,
}

/// Whether a choice record matches its value.
pub open spec fn choice_is(c: VideoTrackChoiceCapability, v: ChoiceView) -> bool {
    c.track@ == v.track && mode_is(c.copy, v.copy) && mode_is(c.custom, v.custom)
}

/// Whether a list of choice records matches its values.
pub open spec fn choices_are(c: Seq<VideoTrackChoiceCapability>, v: Seq<ChoiceView>) -> bool {
    c.len() == v.len() && forall|i: int| 0 <= i < c.len() ==> choice_is(#[trigger] c[i], v[i])
}

/// The choice an audio stream offers.
pub open spec fn spec_audio_choice(t: TrackView, target: TargetFormat, aac: bool) -> ChoiceView {
    match spec_codec_value(t.codec_name) {
        None => ChoiceView {
            track: t,
            copy: Some("The source audio codec is unavailable"@),
            custom: Some("The source audio codec is unavailable"@),
        },
        Some(codec) => {
            let copyable = spec_audio_copyable(target, codec);
            ChoiceView {
                track: t,
                copy: if copyable {
                    None
                } else {
                    Some(codec + " audio cannot be copied into "@ + spec_extension(target))
                },
                custom: if copyable || aac {
                    None
                } else {
                    Some("The AAC fallback encoder is unavailable"@)
                },
            }
        },
    }
}

/// The choice a subtitle stream offers.
pub open spec fn spec_subtitle_choice(t: TrackView, target: TargetFormat) -> ChoiceView {
    match spec_codec_value(t.codec_name) {
        None => ChoiceView {
            track: t,
            copy: Some("The source subtitle codec is unavailable"@),
            custom: Some("The source subtitle codec is unavailable"@),
        },
        Some(codec) => {
            let reason = if spec_subtitle_copyable(target, codec) {
                None
            } else {
                Some(codec + " subtitles cannot be copied into "@ + spec_extension(target))
            };
            ChoiceView { track: t, copy: reason, custom: reason }
        },
    }
}

/// The choices of the streams of one family, in order.
pub open spec fn spec_choices(
    s: Seq<TrackView>,
    audio: bool,
    target: TargetFormat,
    aac: bool,
) -> Seq<ChoiceView>
    decreases s.len(),
{
    if s.len() == 0 {
        Seq::empty()
    } else {
        let rest = spec_choices(s.drop_last(), audio, target, aac);
        let t = s.last();
        if audio && t.codec_type == "audio"@ {
            rest.push(spec_audio_choice(t, target, aac))
        } else if !audio && t.codec_type == "subtitle"@ {
            rest.push(spec_subtitle_choice(t, target))
        } else {
            rest
        }
    }
}

/// The refusal of a choice under Copy (`custom == false`) or Custom.
pub open spec fn choice_reason(c: ChoiceView, custom: bool) -> Option<Seq<char>> {
    if custom {
        c.custom
    } else {
        c.copy
    }
}

/// The policy modes of one family under one video mode, as refusals:
/// Keep all needs every stream, Choose at least one, None is always
/// offered; MP4 and MOV audio also need a supported source-default stream;
/// an unknown codec anywhere disables every policy.
pub open spec fn spec_policy_modes(
    c: Seq<ChoiceView>,
    custom: bool,
    label: Seq<char>,
    default_rule: Option<Seq<char>>,
    known: bool,
) -> (Option<Seq<char>>, Option<Seq<char>>, Option<Seq<char>>) {
    let all = forall|i: int| 0 <= i < c.len() ==> (#[trigger] choice_reason(c[i], custom)) is None;
    let any = exists|i: int| 0 <= i < c.len() && (#[trigger] choice_reason(c[i], custom)) is None;
    let defaulted = exists|i: int|
        0 <= i < c.len() && (#[trigger] choice_reason(c[i], custom)) is None && c[i].track.default
            == Some(true);
    if !known {
        let r = Some("Every source audio and subtitle stream needs a known codec"@);
        (r, r, r)
    } else if default_rule is Some && c.len() > 0 && !defaulted {
        (default_rule, default_rule, None)
    } else {
        (
            if all {
                None
            } else {
                Some("Not every "@ + label + " stream is supported"@)
            },
            if any {
                None
            } else {
                Some("No "@ + label + " stream is supported"@)
            },
            None,
        )
    }
}

/// Whether a policy record matches its refusals.
pub open spec fn modes_are(
    m: VideoTrackPolicyModeCapabilities,
    v: (Option<Seq<char>>, Option<Seq<char>>, Option<Seq<char>>),
) -> bool {
    mode_is(m.keep_all, v.0) && mode_is(m.choose, v.1) && mode_is(m.none, v.2)
}

/// Whether every audio and subtitle stream names a known codec.
pub open spec fn spec_codecs_known(s: Seq<TrackView>) -> bool {
    forall|i: int| 0 <= i < s.len() ==> !(is_auxiliary(#[trigger] s[i]) && spec_codec_value(
        s[i].codec_name,
    ) is None)
}

/// The default-stream rule of MP4 and MOV audio.
pub open spec fn spec_default_rule(target: TargetFormat) -> Option<Seq<char>> {
    if target == TargetFormat::Mp4 {
        Some(
            "MP4 requires every nonempty audio selection to retain a supported source-default stream"@,
        )
    } else if target == TargetFormat::Mov {
        Some(
            "MOV requires every nonempty audio selection to retain a supported source-default stream"@,
        )
    } else {
        None
    }
}

/// Whether `r` is what a bound source offers: every stream's choices and
/// the family policies derived from them.
pub open spec fn settings_are(
    r: VideoTrackSettingsCapabilities,
    source: crate::tracks::TrackSourceBinding,
    target: TargetFormat,
    aac: bool,
) -> bool {
    let s = source.inventory@.1;
    let a = spec_choices(s, true, target, aac);
    let t = spec_choices(s, false, target, aac);
    let known = spec_codecs_known(s);
    let rule = spec_default_rule(target);
    &&& r.source@ == source@
    &&& choices_are(r.audio_tracks@, a)
    &&& choices_are(r.subtitle_tracks@, t)
    &&& modes_are(r.audio_policy.copy, spec_policy_modes(a, false, "audio"@, rule, known))
    &&& modes_are(r.audio_policy.custom, spec_policy_modes(a, true, "audio"@, rule, known))
    &&& modes_are(r.subtitle_policy.copy, spec_policy_modes(t, false, "subtitle"@, None, known))
    &&& modes_are(r.subtitle_policy.custom, spec_policy_modes(t, true, "subtitle"@, None, known))
}

/// An availability record for `reason`.
fn availability(reason: Option<String>) -> (m: TrackModeAvailability)
    ensures
        mode_is(m, opt_string(reason)),
{
    TrackModeAvailability { available: reason.is_none(), reason }
}

/// A refusal text, owned.
fn refusal(text: &str) -> (r: Option<String>)
    ensures
        opt_string(r) == Some(text@),
{
    Some(owned(text))
}

/// The choice one audio or subtitle stream offers.
fn track_choice(t: &TrackIdentity, audio: bool, target: TargetFormat, aac: bool) -> (r:
    VideoTrackChoiceCapability)
    ensures
        choice_is(
            r,
            if audio {
                spec_audio_choice(t@, target, aac)
            } else {
                spec_subtitle_choice(t@, target)
            },
        ),
{
    match codec_value_from_fact(&t.codec_name) {
        None => {
            let text = if audio {
                "The source audio codec is unavailable"
            } else {
                "The source subtitle codec is unavailable"
            };
            VideoTrackChoiceCapability {
                track: t.copy(),
                copy: availability(refusal(text)),
                custom: availability(refusal(text)),
            }
        },
        Some(codec) => {
            if audio {
                let copyable = audio_copyable(target, codec);
                let copy = if copyable {
                    None
                } else {
                    let mut m = owned(codec);
                    push_str(&mut m, " audio cannot be copied into ");
                    push_str(&mut m, target.extension_str());
                    Some(m)
                };
                let custom = if copyable || aac {
                    None
                } else {
                    refusal("The AAC fallback encoder is unavailable")
                };
                VideoTrackChoiceCapability {
                    track: t.copy(),
                    copy: availability(copy),
                    custom: availability(custom),
                }
            } else {
                let copyable = subtitle_copyable(target, codec);
                let make = |u: bool| -> (r: Option<String>)
                    ensures
                        opt_string(r) == (if copyable {
                            None
                        } else {
                            Some(codec@ + " subtitles cannot be copied into "@ + spec_extension(target))
                        }),
                    {
                        if copyable {
                            None
                        } else {
                            let mut m = owned(codec);
                            push_str(&mut m, " subtitles cannot be copied into ");
                            push_str(&mut m, target.extension_str());
                            Some(m)
                        }
                    };
                VideoTrackChoiceCapability {
                    track: t.copy(),
                    copy: availability(make(true)),
                    custom: availability(make(false)),
                }
            }
        },
    }
}

/// The choices of the streams of one family, in order.
fn track_choices(
    tracks: &Vec<TrackIdentity>,
    audio: bool,
    target: TargetFormat,
    aac: bool,
) -> (r: Vec<VideoTrackChoiceCapability>)
    ensures
        choices_are(r@, spec_choices(tracks_view(tracks@), audio, target, aac)),
{
    let ghost s = tracks_view(tracks@);
    let mut r: Vec<VideoTrackChoiceCapability> = Vec::new();
    let mut i: usize = 0;
    while i < tracks.len()
        invariant
            s == tracks_view(tracks@),
            i <= s.len(),
            choices_are(r@, spec_choices(s.take(i as int), audio, target, aac)),
        decreases s.len() - i,
    {
        proof {
            assert(s.take(i + 1).drop_last() =~= s.take(i as int));
            assert(s.take(i + 1).last() == tracks@[i as int]@);
        }
        let t = &tracks[i];
        let family = if audio {
            "audio"
        } else {
            "subtitle"
        };
        if str_eq(t.codec_type.as_str(), family) {
            let c = track_choice(t, audio, target, aac);
            let ghost before = r@;
            r.push(c);
            proof {
                let v = spec_choices(s.take(i + 1), audio, target, aac);
                assert forall|j: int| 0 <= j < r@.len() implies choice_is(#[trigger] r@[j], v[j]) by {
                    if j < before.len() {
                        assert(r@[j] == before[j]);
                    }
                }
            }
        }
        i = i + 1;
    }
    assert(s.take(s.len() as int) =~= s);
    r
}

/// Whether the refusal of a choice under a mode is absent.
fn reason_absent(c: &VideoTrackChoiceCapability, custom: bool) -> (r: bool)
    ensures
        r == if custom {
            c.custom.available
        } else {
            c.copy.available
        },
{
    if custom {
        c.custom.available
    } else {
        c.copy.available
    }
}

/// A mode record for a refusal given as text.
fn mode_for(reason: Option<&str>) -> (m: TrackModeAvailability)
    ensures
        mode_is(m, opt_view(reason)),
{
    match reason {
        Some(t) => availability(refusal(t)),
        None => availability(None),
    }
}

/// The policy modes of one family under one video mode.
fn policy_modes(
    choices: &Vec<VideoTrackChoiceCapability>,
    custom: bool,
    label: &str,
    default_rule: Option<&str>,
    known: bool,
    ghost_choices: Ghost<Seq<ChoiceView>>,
) -> (m: VideoTrackPolicyModeCapabilities)
    requires
        choices_are(choices@, ghost_choices@),
    ensures
        modes_are(m, spec_policy_modes(ghost_choices@, custom, label@, opt_view(default_rule), known)),
{
    let ghost c = ghost_choices@;
    if !known {
        let r = "Every source audio and subtitle stream needs a known codec";
        return VideoTrackPolicyModeCapabilities {
            keep_all: mode_for(Some(r)),
            choose: mode_for(Some(r)),
            none: mode_for(Some(r)),
        };
    }
    let mut all = true;
    let mut any = false;
    let mut defaulted = false;
    let mut i: usize = 0;
    while i < choices.len()
        invariant
            choices_are(choices@, c),
            i <= choices@.len(),
            all == forall|j: int| 0 <= j < i ==> (#[trigger] choice_reason(c[j], custom)) is None,
            any == exists|j: int| 0 <= j < i && (#[trigger] choice_reason(c[j], custom)) is None,
            defaulted == exists|j: int|
                0 <= j < i && (#[trigger] choice_reason(c[j], custom)) is None
                    && c[j].track.default == Some(true),
        decreases choices@.len() - i,
    {
        assert(choice_is(choices@[i as int], c[i as int]));
        let ok = reason_absent(&choices[i], custom);
        assert(ok == (choice_reason(c[i as int], custom) is None));
        if !ok {
            all = false;
        } else {
            any = true;
            if choices[i].track.disposition.default == Some(true) {
                defaulted = true;
            }
        }
        i = i + 1;
    }
    match default_rule {
        Some(rule) => {
            if choices.len() > 0 && !defaulted {
                return VideoTrackPolicyModeCapabilities {
                    keep_all: mode_for(Some(rule)),
                    choose: mode_for(Some(rule)),
                    none: mode_for(None),
                };
            }
        },
        None => {},
    }
    let mut not_every = owned("Not every ");
    push_str(&mut not_every, label);
    push_str(&mut not_every, " stream is supported");
    let mut no = owned("No ");
    push_str(&mut no, label);
    push_str(&mut no, " stream is supported");
    VideoTrackPolicyModeCapabilities {
        keep_all: availability(if all { None } else { Some(not_every) }),
        choose: availability(if any { None } else { Some(no) }),
        none: mode_for(None),
    }
}

/// Whether every audio and subtitle stream names a known codec.
fn codecs_known(tracks: &Vec<TrackIdentity>) -> (r: bool)
    ensures
        r == spec_codecs_known(tracks_view(tracks@)),
{
    let ghost s = tracks_view(tracks@);
    let mut i: usize = 0;
    while i < tracks.len()
        invariant
            s == tracks_view(tracks@),
            i <= s.len(),
            forall|j: int| 0 <= j < i ==> !(is_auxiliary(#[trigger] s[j]) && spec_codec_value(
                s[j].codec_name,
            ) is None),
        decreases s.len() - i,
    {
        let t = &tracks[i];
        assert(s[i as int] == t@);
        if auxiliary(t) && codec_value_from_fact(&t.codec_name).is_none() {
            return false;
        }
        i = i + 1;
    }
    true
}

/// The default-stream rule of MP4 and MOV audio.
fn default_rule(target: TargetFormat) -> (r: Option<&'static str>)
    ensures
        opt_view(r) == spec_default_rule(target),
{
    if target == TargetFormat::Mp4 {
        Some(
            "MP4 requires every nonempty audio selection to retain a supported source-default stream",
        )
    } else if target == TargetFormat::Mov {
        Some(
            "MOV requires every nonempty audio selection to retain a supported source-default stream",
        )
    } else {
        None
    }
}

/// Computes the per-stream Copy and Custom availability of a bound source,
/// and the family policies derived from them, after checking the binding
/// against fresh probe facts.
pub fn settings(
    probe: &ProbeResult,
    target: TargetFormat,
    encoders: &DetectedEncoders,
    source: &crate::tracks::TrackSourceBinding,
) -> (r: Result<VideoTrackSettingsCapabilities, GoopError>)
    ensures
        match spec_validate_fresh_source(source.inventory@, *probe) {
            Err(m) => (r matches Err(e) && is_invalid_with(e, m)),
            Ok(_) => (r matches Ok(x) && settings_are(
                x,
                *source,
                target,
                views(encoders.available@).contains("aac"@),
            )),
        },
{
    match validate_fresh_source(&source.inventory, probe) {
        Ok(_) => {},
        Err(e) => return Err(e),
    }
    let aac = encoders.is_available("aac");
    let tracks = &source.inventory.streams;
    let audio_tracks = track_choices(tracks, true, target, aac);
    let subtitle_tracks = track_choices(tracks, false, target, aac);
    let known = codecs_known(tracks);
    let rule = default_rule(target);
    let ghost a = spec_choices(tracks_view(tracks@), true, target, aac);
    let ghost t = spec_choices(tracks_view(tracks@), false, target, aac);
    let audio_policy = VideoTrackPolicyCapabilities {
        copy: policy_modes(&audio_tracks, false, "audio", rule, known, Ghost(a)),
        custom: policy_modes(&audio_tracks, true, "audio", rule, known, Ghost(a)),
    };
    let subtitle_policy = VideoTrackPolicyCapabilities {
        copy: policy_modes(&subtitle_tracks, false, "subtitle", None, known, Ghost(t)),
        custom: policy_modes(&subtitle_tracks, true, "subtitle", None, known, Ghost(t)),
    };
    Ok(
        VideoTrackSettingsCapabilities {
            source: source.copy(),
            audio_policy,
            subtitle_policy,
            audio_tracks,
            subtitle_tracks,
        },
    )
}


// ---------------------------------------------------------------------------
// Container codec tags
// ---------------------------------------------------------------------------

/// The codec tag and handler title a probe reports for one output stream.
#[derive(Debug, Clone, PartialEq, Eq)]
pub struct StreamCodecTag {
    pub index: u32,
    pub tag: TrackTextFact,
    pub handler_title: TrackTextFact,
}

/// What a probe reports about one stream's codec tag and handler name.
#[derive(Debug, Clone, PartialEq, Eq)]
pub struct ProbedCodecTag {
    pub index: u32,
    pub codec_tag_string: Option<String>,
    pub handler_name: Option<String>,
}

/// A reported codec tag as a fact: an empty or absent tag is missing.
pub open spec fn spec_tag_fact(t: Option<Seq<char>>) -> FactView {
    match t {
        Some(v) => if v.len() > 0 {
            FactView::Value(v)
        } else {
            FactView::Missing
        },
        None => FactView::Missing,
    }
}

/// Whether a handler name is one of the generic names a muxer writes on
/// its own.
pub open spec fn is_generic_handler(v: Seq<char>) -> bool {
    v == "VideoHandler"@ || v == "SoundHandler"@ || v == "SubtitleHandler"@
}

/// A reported handler name as a title fact: empty, absent and generic
/// names are missing.
pub open spec fn spec_handler_fact(t: Option<Seq<char>>) -> FactView {
    match t {
        Some(v) => if v.len() > 0 && !is_generic_handler(v) {
            FactView::Value(v)
        } else {
            FactView::Missing
        },
        None => FactView::Missing,
    }
}

/// Whether the reported stream indices strictly increase.
pub open spec fn codec_tag_indices_ordered(s: Seq<ProbedCodecTag>) -> bool {
    forall|i: int| 0 < i < s.len() ==> #[trigger] s[i].index > s[i - 1].index
}

/// The codec-tag facts of one reported stream.
pub open spec fn spec_codec_tag_of(p: ProbedCodecTag) -> (u32, FactView, FactView) {
    (p.index, spec_tag_fact(opt_string(p.codec_tag_string)), spec_handler_fact(
        opt_string(p.handler_name),
    ))
}

/// The codec-tag facts of a list as values.
pub open spec fn codec_tags_view(v: Seq<StreamCodecTag>) -> Seq<(u32, FactView, FactView)> {
    v.map_values(|t: StreamCodecTag| (t.index, t.tag@, t.handler_title@))
}

fn tag_fact(t: &Option<String>) -> (r: TrackTextFact)
    ensures
        r@ == spec_tag_fact(opt_string(*t)),
{
    match t {
        Some(v) => if v.as_str().unicode_len() > 0 {
            TrackTextFact::Value { value: v.clone() }
        } else {
            TrackTextFact::Missing
        },
        None => TrackTextFact::Missing,
    }
}

fn handler_fact(t: &Option<String>) -> (r: TrackTextFact)
    ensures
        r@ == spec_handler_fact(opt_string(*t)),
{
    match t {
        Some(v) => {
            let generic = str_eq(v.as_str(), "VideoHandler") || str_eq(v.as_str(), "SoundHandler")
                || str_eq(v.as_str(), "SubtitleHandler");
            if v.as_str().unicode_len() > 0 && !generic {
                TrackTextFact::Value { value: v.clone() }
            } else {
                TrackTextFact::Missing
            }
        },
        None => TrackTextFact::Missing,
    }
}

/// Turns the reported codec tags of every stream into facts, refusing a
/// report whose stream indices do not strictly increase.
pub fn stream_codec_tags(streams: &Vec<ProbedCodecTag>) -> (r: Result<Vec<StreamCodecTag>, GoopError>)
    ensures
        codec_tag_indices_ordered(streams@) ==> (r matches Ok(v) && codec_tags_view(v@)
            == streams@.map_values(|p: ProbedCodecTag| spec_codec_tag_of(p))),
        !codec_tag_indices_ordered(streams@) ==> (r matches Err(e) && is_invalid_with(
            e,
            "Codec-tag probe indices are not strictly ordered"@,
        )),
{
    let ghost want = streams@.map_values(|p: ProbedCodecTag| spec_codec_tag_of(p));
    let mut out: Vec<StreamCodecTag> = Vec::new();
    let mut i: usize = 0;
    while i < streams.len()
        invariant
            i <= streams@.len(),
            want == streams@.map_values(|p: ProbedCodecTag| spec_codec_tag_of(p)),
            forall|j: int| 0 < j < i ==> #[trigger] streams@[j].index > streams@[j - 1].index,
            codec_tags_view(out@) == want.take(i as int),
        decreases streams@.len() - i,
    {
        if i > 0 && streams[i - 1].index >= streams[i].index {
            return Err(invalid("Codec-tag probe indices are not strictly ordered"));
        }
        let p = &streams[i];
        let t = StreamCodecTag {
            index: p.index,
            tag: tag_fact(&p.codec_tag_string),
            handler_title: handler_fact(&p.handler_name),
        };
        let ghost before = out@;
        out.push(t);
        proof {
            assert(codec_tags_view(out@) =~= codec_tags_view(before).push(
                (t.index, t.tag@, t.handler_title@),
            ));
            assert(want.take(i + 1) =~= want.take(i as int).push(want[i as int]));
        }
        i = i + 1;
    }
    assert(want.take(i as int) =~= want);
    Ok(out)
}

/// The container tag a codec must carry in a target, when one is verified.
pub open spec fn spec_expected_output_codec_tag(target: TargetFormat, codec: Seq<char>) -> Option<
    Seq<char>,
> {
    if target == TargetFormat::Mp4 {
        if codec == "aac"@ || codec == "mp3"@ {
            Some("mp4a"@)
        } else if codec == "ac3"@ {
            Some("ac-3"@)
        } else if codec == "eac3"@ {
            Some("ec-3"@)
        } else if codec == "alac"@ {
            Some("alac"@)
        } else if codec == "flac"@ {
            Some("fLaC"@)
        } else if codec == "opus"@ {
            Some("Opus"@)
        } else if codec == "mov_text"@ {
            Some("tx3g"@)
        } else {
            None
        }
    } else if target == TargetFormat::Mov {
        if codec == "aac"@ {
            Some("mp4a"@)
        } else if codec == "mp3"@ {
            Some(".mp3"@)
        } else if codec == "ac3"@ {
            Some("ac-3"@)
        } else if codec == "eac3"@ {
            Some("ec-3"@)
        } else if codec == "alac"@ {
            Some("alac"@)
        } else if codec == "dts"@ {
            Some("dtsc"@)
        } else if codec == "pcm_s16le"@ {
            Some("sowt"@)
        } else if codec == "mov_text"@ {
            Some("text"@)
        } else {
            None
        }
    } else if target == TargetFormat::Mkv {
        Some("[0][0][0][0]"@)
    } else {
        None
    }
}

/// The container tag a codec must carry in a target, when one is verified.
pub fn expected_output_codec_tag(target: TargetFormat, codec: &str) -> (r: Option<&'static str>)
    ensures
        opt_view(r) == spec_expected_output_codec_tag(target, codec@),
{
    if target == TargetFormat::Mp4 {
        if str_eq(codec, "aac") || str_eq(codec, "mp3") {
            Some("mp4a")
        } else if str_eq(codec, "ac3") {
            Some("ac-3")
        } else if str_eq(codec, "eac3") {
            Some("ec-3")
        } else if str_eq(codec, "alac") {
            Some("alac")
        } else if str_eq(codec, "flac") {
            Some("fLaC")
        } else if str_eq(codec, "opus") {
            Some("Opus")
        } else if str_eq(codec, "mov_text") {
            Some("tx3g")
        } else {
            None
        }
    } else if target == TargetFormat::Mov {
        if str_eq(codec, "aac") {
            Some("mp4a")
        } else if str_eq(codec, "mp3") {
            Some(".mp3")
        } else if str_eq(codec, "ac3") {
            Some("ac-3")
        } else if str_eq(codec, "eac3") {
            Some("ec-3")
        } else if str_eq(codec, "alac") {
            Some("alac")
        } else if str_eq(codec, "dts") {
            Some("dtsc")
        } else if str_eq(codec, "pcm_s16le") {
            Some("sowt")
        } else if str_eq(codec, "mov_text") {
            Some("text")
        } else {
            None
        }
    } else if target == TargetFormat::Mkv {
        Some("[0][0][0][0]")
    } else {
        None
    }
}

/// A text fact rendered for a message: `Value { value: "…" }`, `Missing`
/// or `Malformed`.
pub open spec fn spec_fact_text(f: FactView) -> Seq<char> {
    match f {
        FactView::Value(v) => "Value { value: \""@ + v + "\" }"@,
        FactView::Missing => "Missing"@,
        FactView::Malformed => "Malformed"@,
    }
}

/// A text fact rendered for a message.
fn fact_text(f: &TrackTextFact) -> (r: String)
    ensures
        r@ == spec_fact_text(f@),
{
    match f {
        TrackTextFact::Value { value } => {
            let mut m = owned("Value { value: \"");
            push_str(&mut m, value.as_str());
            push_str(&mut m, "\" }");
            m
        },
        TrackTextFact::Missing => owned("Missing"),
        TrackTextFact::Malformed => owned("Malformed"),
    }
}

/// Whether an output stream's tag is the one verified for its codec.
pub open spec fn spec_validate_output_codec_tag(
    target: TargetFormat,
    codec: Seq<char>,
    tag: FactView,
) -> Result<(), Seq<char>> {
    match spec_expected_output_codec_tag(target, codec) {
        None => Err(
            "No verified "@ + spec_extension(target) + " container tag exists for "@ + codec,
        ),
        Some(x) => if tag == FactView::Value(x) {
            Ok(())
        } else {
            Err(
                "Completed output has container tag "@ + spec_fact_text(tag) + ", expected "@ + x
                    + " for "@ + codec,
            )
        },
    }
}

/// Checks an output stream's container tag against its codec.
pub fn validate_output_codec_tag(target: TargetFormat, codec: &str, tag: &TrackTextFact) -> (r:
    Result<(), GoopError>)
    ensures
        match spec_validate_output_codec_tag(target, codec@, tag@) {
            Ok(_) => r is Ok,
            Err(m) => (r matches Err(e) && is_invalid_with(e, m)),
        },
{
    let expected = match expected_output_codec_tag(target, codec) {
        Some(x) => x,
        None => {
            let mut m = owned("No verified ");
            push_str(&mut m, target.extension_str());
            push_str(&mut m, " container tag exists for ");
            push_str(&mut m, codec);
            return Err(invalid_owned(m));
        },
    };
    let matches = match tag {
        TrackTextFact::Value { value } => str_eq(value.as_str(), expected),
        _ => false,
    };
    if !matches {
        let mut m = owned("Completed output has container tag ");
        let t = fact_text(tag);
        push_str(&mut m, t.as_str());
        push_str(&mut m, ", expected ");
        push_str(&mut m, expected);
        push_str(&mut m, " for ");
        push_str(&mut m, codec);
        return Err(invalid_owned(m));
    }
    Ok(())
}

/// The position of the first tag record of stream `index`.
pub open spec fn first_tag_of(tags: Seq<StreamCodecTag>, index: u32) -> Option<int>
    decreases tags.len(),
{
    if tags.len() == 0 {
        None
    } else {
        match first_tag_of(tags.drop_last(), index) {
            Some(k) => Some(k),
            None => if tags.last().index == index {
                Some(tags.len() - 1)
            } else {
                None
            },
        }
    }
}

proof fn lemma_first_tag_of_bounds(tags: Seq<StreamCodecTag>, index: u32)
    ensures
        first_tag_of(tags, index) matches Some(k) ==> 0 <= k < tags.len() && tags[k].index
            == index,
        first_tag_of(tags, index) is None ==> forall|j: int|
            0 <= j < tags.len() ==> (#[trigger] tags[j]).index != index,
    decreases tags.len(),
{
    if tags.len() > 0 {
        lemma_first_tag_of_bounds(tags.drop_last(), index);
        assert forall|j: int| 0 <= j < tags.len() - 1 implies tags.drop_last()[j] == tags[j] by {}
    }
}

/// The codec tag of stream `index`, which must be present and nonempty.
pub open spec fn spec_required_tag(tags: Seq<StreamCodecTag>, index: u32, label: Seq<char>) -> Result<
    FactView,
    Seq<char>,
> {
    match first_tag_of(tags, index) {
        None => Err(label + " codec tag is unavailable for stream "@ + decimal(index as nat)),
        Some(k) => if spec_codec_value(tags[k].tag@) is Some {
            Ok(tags[k].tag@)
        } else {
            Err(label + " codec tag is missing for stream "@ + decimal(index as nat))
        },
    }
}

/// Finds the first tag record of stream `index`.
fn find_tag(tags: &Vec<StreamCodecTag>, index: u32) -> (r: Option<usize>)
    ensures
        match r {
            Some(k) => first_tag_of(tags@, index) == Some(k as int),
            None => first_tag_of(tags@, index) is None,
        },
{
    let mut i: usize = 0;
    while i < tags.len()
        invariant
            i <= tags@.len(),
            first_tag_of(tags@.take(i as int), index) is None,
        decreases tags@.len() - i,
    {
        proof {
            assert(tags@.take(i + 1).drop_last() =~= tags@.take(i as int));
        }
        if tags[i].index == index {
            proof {
                lemma_first_tag_prefix(tags@, index, i as int + 1);
            }
            return Some(i);
        }
        i = i + 1;
    }
    assert(tags@.take(tags@.len() as int) =~= tags@);
    None
}

proof fn lemma_first_tag_prefix(tags: Seq<StreamCodecTag>, index: u32, k: int)
    requires
        0 <= k <= tags.len(),
        first_tag_of(tags.take(k), index) is Some,
    ensures
        first_tag_of(tags, index) == first_tag_of(tags.take(k), index),
    decreases tags.len() - k,
{
    if k < tags.len() {
        assert(tags.take(k + 1).drop_last() =~= tags.take(k));
        lemma_first_tag_prefix(tags, index, k + 1);
    } else {
        assert(tags.take(k) =~= tags);
    }
}

/// The codec tag of stream `index`, which must be present and nonempty.
pub fn required_tag(tags: &Vec<StreamCodecTag>, index: u32, label: &str) -> (r: Result<
    TrackTextFact,
    GoopError,
>)
    ensures
        match spec_required_tag(tags@, index, label@) {
            Ok(f) => (r matches Ok(x) && x@ == f),
            Err(m) => (r matches Err(e) && is_invalid_with(e, m)),
        },
{
    proof {
        lemma_first_tag_of_bounds(tags@, index);
    }
    let k = match find_tag(tags, index) {
        Some(k) => k,
        None => {
            let mut m = owned(label);
            push_str(&mut m, " codec tag is unavailable for stream ");
            let d = decimal_string(index as u64);
            push_str(&mut m, d.as_str());
            return Err(invalid_owned(m));
        },
    };
    if codec_value_from_fact(&tags[k].tag).is_none() {
        let mut m = owned(label);
        push_str(&mut m, " codec tag is missing for stream ");
        let d = decimal_string(index as u64);
        push_str(&mut m, d.as_str());
        return Err(invalid_owned(m));
    }
    Ok(tags[k].tag.copy())
}


impl VideoTrackStreamOutcome {
    /// A copy of this outcome.
    pub fn copy(&self) -> (r: VideoTrackStreamOutcome)
        ensures
            r@ == self@,
    {
        VideoTrackStreamOutcome {
            source: self.source.copy(),
            output_stream_index: self.output_stream_index,
            output_type_index: self.output_type_index,
            processing: self.processing,
            source_codec_tag: self.source_codec_tag.copy(),
            output_codec_name: self.output_codec_name.copy(),
            output_codec_tag: self.output_codec_tag.copy(),
            output_language: self.output_language.copy(),
            output_title: self.output_title.copy(),
            output_default: self.output_default,
            output_forced: self.output_forced,
        }
    }
}

/// The retained outcomes with each source codec tag filled in, or the
/// first refusal.
pub open spec fn spec_populate_source(r: Seq<OutcomeView>, tags: Seq<StreamCodecTag>) -> Result<
    Seq<OutcomeView>,
    Seq<char>,
>
    decreases r.len(),
{
    if r.len() == 0 {
        Ok(Seq::empty())
    } else {
        match spec_populate_source(r.drop_last(), tags) {
            Err(m) => Err(m),
            Ok(p) => match spec_required_tag(tags, r.last().source.index, "Source"@) {
                Err(m) => Err(m),
                Ok(f) => Ok(p.push(OutcomeView { source_codec_tag: f, ..r.last() })),
            },
        }
    }
}

proof fn lemma_populate_source_sticks(r: Seq<OutcomeView>, tags: Seq<StreamCodecTag>, k: int)
    requires
        0 <= k <= r.len(),
        spec_populate_source(r.take(k), tags) is Err,
    ensures
        spec_populate_source(r, tags) == spec_populate_source(r.take(k), tags),
    decreases r.len() - k,
{
    if k < r.len() {
        assert(r.take(k + 1).drop_last() =~= r.take(k));
        lemma_populate_source_sticks(r, tags, k + 1);
    } else {
        assert(r.take(k) =~= r);
    }
}

/// Records every retained stream's source codec tag; the summary is
/// unchanged when a tag is unavailable or missing.
pub fn populate_source_codec_tags(
    summary: &mut VideoTrackExecutionSummary,
    tags: &Vec<StreamCodecTag>,
) -> (r: Result<(), GoopError>)
    ensures
        match spec_populate_source(outcomes_view(old(summary).retained@), tags@) {
            Ok(p) => r is Ok && outcomes_view(final(summary).retained@) == p,
            Err(m) => (r matches Err(e) && is_invalid_with(e, m)) && outcomes_view(
                final(summary).retained@,
            ) == outcomes_view(old(summary).retained@),
        },
        final(summary).requested@ == old(summary).requested@,
        tracks_view(final(summary).omitted_audio@) == tracks_view(old(summary).omitted_audio@),
        tracks_view(final(summary).omitted_subtitles@) == tracks_view(
            old(summary).omitted_subtitles@,
        ),
        views(final(summary).notices@) == views(old(summary).notices@),
{
    let ghost s = outcomes_view(summary.retained@);
    let mut updated: Vec<VideoTrackStreamOutcome> = Vec::new();
    let mut i: usize = 0;
    assert(s.take(0) =~= Seq::<OutcomeView>::empty());
    assert(outcomes_view(updated@) =~= Seq::<OutcomeView>::empty());
    while i < summary.retained.len()
        invariant
            s == outcomes_view(summary.retained@),
            i <= s.len(),
            spec_populate_source(s.take(i as int), tags@) == Ok::<Seq<OutcomeView>, Seq<char>>(
                outcomes_view(updated@),
            ),
        decreases s.len() - i,
    {
        proof {
            assert(s.take(i + 1).drop_last() =~= s.take(i as int));
            assert(s.take(i + 1).last() == summary.retained@[i as int]@);
        }
        let o = &summary.retained[i];
        let tag = match required_tag(tags, o.source.index, "Source") {
            Ok(t) => t,
            Err(e) => {
                proof {
                    lemma_populate_source_sticks(s, tags@, i as int + 1);
                }
                return Err(e);
            },
        };
        let mut c = o.copy();
        c.source_codec_tag = tag;
        let ghost before = updated@;
        updated.push(c);
        proof {
            assert(outcomes_view(updated@) =~= outcomes_view(before).push(c@));
        }
        i = i + 1;
    }
    assert(s.take(s.len() as int) =~= s);
    summary.retained = updated;
    Ok(())
}

/// The retained outcomes with each output codec tag checked and filled
/// in, or the first refusal.
pub open spec fn spec_populate_output(
    r: Seq<OutcomeView>,
    tags: Seq<StreamCodecTag>,
    target: TargetFormat,
) -> Result<Seq<OutcomeView>, Seq<char>>
    decreases r.len(),
{
    if r.len() == 0 {
        Ok(Seq::empty())
    } else {
        match spec_populate_output(r.drop_last(), tags, target) {
            Err(m) => Err(m),
            Ok(p) => {
                let o = r.last();
                match spec_required_tag(tags, o.output_stream_index, "Completed output"@) {
                    Err(m) => Err(m),
                    Ok(f) => match spec_codec_value(o.output_codec_name) {
                        None => Err(
                            "Completed output codec is unavailable for stream "@ + decimal(
                                o.output_stream_index as nat,
                            ),
                        ),
                        Some(codec) => match spec_validate_output_codec_tag(target, codec, f) {
                            Err(m) => Err(m),
                            Ok(_) => Ok(p.push(OutcomeView { output_codec_tag: f, ..o })),
                        },
                    },
                }
            },
        }
    }
}

proof fn lemma_populate_output_sticks(
    r: Seq<OutcomeView>,
    tags: Seq<StreamCodecTag>,
    target: TargetFormat,
    k: int,
)
    requires
        0 <= k <= r.len(),
        spec_populate_output(r.take(k), tags, target) is Err,
    ensures
        spec_populate_output(r, tags, target) == spec_populate_output(r.take(k), tags, target),
    decreases r.len() - k,
{
    if k < r.len() {
        assert(r.take(k + 1).drop_last() =~= r.take(k));
        lemma_populate_output_sticks(r, tags, target, k + 1);
    } else {
        assert(r.take(k) =~= r);
    }
}

/// The retained outcomes with their output codec tags checked and filled
/// in, computed.
fn populated_output(
    retained: &Vec<VideoTrackStreamOutcome>,
    tags: &Vec<StreamCodecTag>,
    target: TargetFormat,
) -> (r: Result<Vec<VideoTrackStreamOutcome>, GoopError>)
    ensures
        match spec_populate_output(outcomes_view(retained@), tags@, target) {
            Ok(p) => (r matches Ok(v) && outcomes_view(v@) == p),
            Err(m) => (r matches Err(e) && is_invalid_with(e, m)),
        },
{
    let ghost s = outcomes_view(retained@);
    let mut updated: Vec<VideoTrackStreamOutcome> = Vec::new();
    let mut i: usize = 0;
    assert(s.take(0) =~= Seq::<OutcomeView>::empty());
    assert(outcomes_view(updated@) =~= Seq::<OutcomeView>::empty());
    while i < retained.len()
        invariant
            s == outcomes_view(retained@),
            i <= s.len(),
            spec_populate_output(s.take(i as int), tags@, target) == Ok::<
                Seq<OutcomeView>,
                Seq<char>,
            >(outcomes_view(updated@)),
        decreases s.len() - i,
    {
        proof {
            assert(s.take(i + 1).drop_last() =~= s.take(i as int));
            assert(s.take(i + 1).last() == retained@[i as int]@);
        }
        let o = &retained[i];
        let tag = match required_tag(tags, o.output_stream_index, "Completed output") {
            Ok(t) => t,
            Err(e) => {
                proof {
                    lemma_populate_output_sticks(s, tags@, target, i as int + 1);
                }
                return Err(e);
            },
        };
        let codec = match codec_value_from_fact(&o.output_codec_name) {
            Some(c) => c,
            None => {
                let m = decorated(
                    "Completed output codec is unavailable for stream ",
                    o.output_stream_index,
                    "",
                );
                proof {
                    reveal_strlit("");
                    assert(m@ =~= "Completed output codec is unavailable for stream "@ + decimal(
                        o.output_stream_index as nat,
                    ));
                    lemma_populate_output_sticks(s, tags@, target, i as int + 1);
                }
                return Err(invalid_owned(m));
            },
        };
        match validate_output_codec_tag(target, codec, &tag) {
            Ok(_) => {},
            Err(e) => {
                proof {
                    lemma_populate_output_sticks(s, tags@, target, i as int + 1);
                }
                return Err(e);
            },
        }
        let mut c = o.copy();
        c.output_codec_tag = tag;
        let ghost before = updated@;
        updated.push(c);
        proof {
            assert(outcomes_view(updated@) =~= outcomes_view(before).push(c@));
        }
        i = i + 1;
    }
    assert(s.take(s.len() as int) =~= s);
    Ok(updated)
}

/// Checks and records every retained stream's output codec tag; the
/// summary is unchanged on a refusal.
pub fn populate_output_codec_tags(
    summary: &mut VideoTrackExecutionSummary,
    tags: &Vec<StreamCodecTag>,
    target: TargetFormat,
) -> (r: Result<(), GoopError>)
    ensures
        match spec_populate_output(outcomes_view(old(summary).retained@), tags@, target) {
            Ok(p) => r is Ok && outcomes_view(final(summary).retained@) == p,
            Err(m) => (r matches Err(e) && is_invalid_with(e, m)) && outcomes_view(
                final(summary).retained@,
            ) == outcomes_view(old(summary).retained@),
        },
        final(summary).requested@ == old(summary).requested@,
        tracks_view(final(summary).omitted_audio@) == tracks_view(old(summary).omitted_audio@),
        tracks_view(final(summary).omitted_subtitles@) == tracks_view(
            old(summary).omitted_subtitles@,
        ),
        views(final(summary).notices@) == views(old(summary).notices@),
{
    match populated_output(&summary.retained, tags, target) {
        Ok(v) => {
            summary.retained = v;
            Ok(())
        },
        Err(e) => Err(e),
    }
}


/// The position of the first stream with `index`.
pub open spec fn first_track_with(s: Seq<TrackView>, index: u32) -> Option<int>
    decreases s.len(),
{
    if s.len() == 0 {
        None
    } else {
        match first_track_with(s.drop_last(), index) {
            Some(k) => Some(k),
            None => if s.last().index == index {
                Some(s.len() - 1)
            } else {
                None
            },
        }
    }
}

proof fn lemma_first_track_with(s: Seq<TrackView>, index: u32)
    ensures
        first_track_with(s, index) matches Some(k) ==> 0 <= k < s.len() && s[k].index == index,
    decreases s.len(),
{
    if s.len() > 0 {
        lemma_first_track_with(s.drop_last(), index);
    }
}

proof fn lemma_first_track_prefix(s: Seq<TrackView>, index: u32, k: int)
    requires
        0 <= k <= s.len(),
        first_track_with(s.take(k), index) is Some,
    ensures
        first_track_with(s, index) == first_track_with(s.take(k), index),
    decreases s.len() - k,
{
    if k < s.len() {
        assert(s.take(k + 1).drop_last() =~= s.take(k));
        lemma_first_track_prefix(s, index, k + 1);
    } else {
        assert(s.take(k) =~= s);
    }
}

/// Finds the first stream with `index`.
fn find_track(tracks: &Vec<TrackIdentity>, index: u32) -> (r: Option<usize>)
    ensures
        match r {
            Some(k) => first_track_with(tracks_view(tracks@), index) == Some(k as int),
            None => first_track_with(tracks_view(tracks@), index) is None,
        },
{
    let ghost s = tracks_view(tracks@);
    let mut i: usize = 0;
    while i < tracks.len()
        invariant
            s == tracks_view(tracks@),
            i <= s.len(),
            first_track_with(s.take(i as int), index) is None,
        decreases s.len() - i,
    {
        proof {
            assert(s.take(i + 1).drop_last() =~= s.take(i as int));
            assert(s.take(i + 1).last() == tracks@[i as int]@);
        }
        if tracks[i].index == index {
            proof {
                lemma_first_track_prefix(s, index, i as int + 1);
            }
            return Some(i);
        }
        i = i + 1;
    }
    assert(s.take(s.len() as int) =~= s);
    None
}

/// The title a finished MP4 or MOV stream shows: its own title, or, when
/// the container stored the title as the handler name, that name.
pub open spec fn spec_shown_title(
    actual: TrackView,
    o: OutcomeView,
    tags: Seq<StreamCodecTag>,
) -> FactView {
    if actual.title is Missing && o.output_title is Value {
        match first_tag_of(tags, o.output_stream_index) {
            Some(k) => tags[k].handler_title@,
            None => actual.title,
        }
    } else {
        actual.title
    }
}

/// Whether every retained stream of a finished MP4 or MOV keeps its
/// title, in order of the outcomes.
pub open spec fn spec_titles_kept(
    r: Seq<OutcomeView>,
    inv: Seq<TrackView>,
    tags: Seq<StreamCodecTag>,
) -> Result<(), Seq<char>>
    decreases r.len(),
{
    if r.len() == 0 {
        Ok(())
    } else {
        match spec_titles_kept(r.drop_last(), inv, tags) {
            Err(m) => Err(m),
            Ok(_) => {
                let o = r.last();
                match first_track_with(inv, o.output_stream_index) {
                    None => Err("Completed auxiliary stream is unavailable"@),
                    Some(k) => if spec_shown_title(inv[k], o, tags) != o.output_title {
                        Err(
                            "Completed auxiliary stream "@ + decimal(o.output_stream_index as nat)
                                + " does not preserve its title"@,
                        )
                    } else {
                        Ok(())
                    },
                }
            },
        }
    }
}

proof fn lemma_titles_kept_sticks(
    r: Seq<OutcomeView>,
    inv: Seq<TrackView>,
    tags: Seq<StreamCodecTag>,
    k: int,
)
    requires
        0 <= k <= r.len(),
        spec_titles_kept(r.take(k), inv, tags) is Err,
    ensures
        spec_titles_kept(r, inv, tags) == spec_titles_kept(r.take(k), inv, tags),
    decreases r.len() - k,
{
    if k < r.len() {
        assert(r.take(k + 1).drop_last() =~= r.take(k));
        lemma_titles_kept_sticks(r, inv, tags, k + 1);
    } else {
        assert(r.take(k) =~= r);
    }
}

/// The container facts of a finished output: every output codec tag, and
/// for MP4 and MOV every retained title.
pub open spec fn spec_container_facts(
    retained: Seq<OutcomeView>,
    actual: ProbeResult,
    tags: Seq<StreamCodecTag>,
    target: TargetFormat,
) -> Result<Seq<OutcomeView>, Seq<char>> {
    match spec_populate_output(retained, tags, target) {
        Err(m) => Err(m),
        Ok(p) => if !(target == TargetFormat::Mp4 || target == TargetFormat::Mov) {
            Ok(p)
        } else {
            match actual.track_inventory {
                None => Err("Completed video is missing its verified stream inventory"@),
                Some(i) => match spec_titles_kept(p, i@.1, tags) {
                    Err(m) => Err(m),
                    Ok(_) => Ok(p),
                },
            }
        },
    }
}

/// Checks the finished titles of every retained stream.
fn check_titles(
    retained: &Vec<VideoTrackStreamOutcome>,
    inventory: &Vec<TrackIdentity>,
    tags: &Vec<StreamCodecTag>,
) -> (r: Result<(), GoopError>)
    ensures
        match spec_titles_kept(outcomes_view(retained@), tracks_view(inventory@), tags@) {
            Ok(_) => r is Ok,
            Err(m) => (r matches Err(e) && is_invalid_with(e, m)),
        },
{
    let ghost s = outcomes_view(retained@);
    let ghost inv = tracks_view(inventory@);
    let mut i: usize = 0;
    while i < retained.len()
        invariant
            s == outcomes_view(retained@),
            inv == tracks_view(inventory@),
            i <= s.len(),
            spec_titles_kept(s.take(i as int), inv, tags@) is Ok,
        decreases s.len() - i,
    {
        proof {
            assert(s.take(i + 1).drop_last() =~= s.take(i as int));
            assert(s.take(i + 1).last() == retained@[i as int]@);
            lemma_first_track_with(inv, retained@[i as int].output_stream_index);
            lemma_first_tag_of_bounds(tags@, retained@[i as int].output_stream_index);
        }
        let o = &retained[i];
        let k = match find_track(inventory, o.output_stream_index) {
            Some(k) => k,
            None => {
                proof {
                    lemma_titles_kept_sticks(s, inv, tags@, i as int + 1);
                }
                return Err(invalid("Completed auxiliary stream is unavailable"));
            },
        };
        let actual = &inventory[k];
        let use_handler = match (&actual.title, &o.output_title) {
            (TrackTextFact::Missing, TrackTextFact::Value { .. }) => true,
            _ => false,
        };
        let same = if use_handler {
            match find_tag(tags, o.output_stream_index) {
                Some(j) => tags[j].handler_title.same(&o.output_title),
                None => actual.title.same(&o.output_title),
            }
        } else {
            actual.title.same(&o.output_title)
        };
        if !same {
            proof {
                lemma_titles_kept_sticks(s, inv, tags@, i as int + 1);
            }
            return Err(
                invalid_owned(
                    decorated(
                        "Completed auxiliary stream ",
                        o.output_stream_index,
                        " does not preserve its title",
                    ),
                ),
            );
        }
        i = i + 1;
    }
    assert(s.take(s.len() as int) =~= s);
    Ok(())
}

/// Checks and records the output codec tags, then, for MP4 and MOV, that
/// every retained stream kept its title. The summary keeps the recorded
/// tags only when every tag is verified.
pub fn validate_output_container_facts(
    summary: &mut VideoTrackExecutionSummary,
    actual: &ProbeResult,
    tags: &Vec<StreamCodecTag>,
    target: TargetFormat,
) -> (r: Result<(), GoopError>)
    ensures
        match spec_populate_output(outcomes_view(old(summary).retained@), tags@, target) {
            Ok(p) => outcomes_view(final(summary).retained@) == p,
            Err(_) => outcomes_view(final(summary).retained@) == outcomes_view(
                old(summary).retained@,
            ),
        },
        match spec_container_facts(outcomes_view(old(summary).retained@), *actual, tags@, target) {
            Ok(_) => r is Ok,
            Err(m) => (r matches Err(e) && is_invalid_with(e, m)),
        },
        final(summary).requested@ == old(summary).requested@,
        tracks_view(final(summary).omitted_audio@) == tracks_view(old(summary).omitted_audio@),
        tracks_view(final(summary).omitted_subtitles@) == tracks_view(
            old(summary).omitted_subtitles@,
        ),
        views(final(summary).notices@) == views(old(summary).notices@),
{
    match populate_output_codec_tags(summary, tags, target) {
        Ok(_) => {},
        Err(e) => return Err(e),
    }
    if !(target == TargetFormat::Mp4 || target == TargetFormat::Mov) {
        return Ok(());
    }
    let inventory = match &actual.track_inventory {
        Some(i) => i,
        None => return Err(invalid("Completed video is missing its verified stream inventory")),
    };
    check_titles(&summary.retained, &inventory.streams, tags)
}


/// Whether the retained outcomes are numbered `1..=n` in order.
pub open spec fn outputs_numbered(r: Seq<OutcomeView>) -> bool {
    forall|i: int| 0 <= i < r.len() ==> (#[trigger] r[i]).output_stream_index == i + 1
}

proof fn lemma_fold_numbers_outputs(s: Seq<TrackView>, init: TrackPlanState, c: TrackPlanContext)
    requires
        init.retained.len() == 0,
        s.len() < u32::MAX,
    ensures
        spec_track_fold(s, init, c) matches Ok(st) ==> outputs_numbered(st.retained)
            && st.retained.len() <= s.len(),
    decreases s.len(),
{
    if s.len() > 0 {
        lemma_fold_numbers_outputs(s.drop_last(), init, c);
        match spec_track_fold(s.drop_last(), init, c) {
            Ok(st) => {
                match spec_track_step(st, s.last(), c) {
                    Ok(n) => {
                        assert(n.retained.len() <= st.retained.len() + 1);
                        assert forall|i: int| 0 <= i < n.retained.len() implies (
                        #[trigger] n.retained[i]).output_stream_index == i + 1 by {
                            if i < st.retained.len() {
                                assert(n.retained[i] == st.retained[i]);
                            }
                        }
                    },
                    Err(_) => {},
                }
            },
            Err(_) => {},
        }
    }
}

/// The retained auxiliary streams of a resolved plan are the output
/// streams `1..=n` in order, after the video stream at output index 0.
pub proof fn lemma_retained_streams_numbered(
    req: VideoTrackRequest,
    probe: ProbeResult,
    enc: Seq<Seq<char>>,
)
    requires
        req.track_options matches Some(TrackConvertOptions::Video { source, .. })
            ==> source.inventory.streams@.len() < u32::MAX,
    ensures
        spec_resolve_tracks(req, probe, enc) matches Ok(v) ==> outputs_numbered(v.retained),
{
    match req.track_options {
        Some(TrackConvertOptions::Video { source, audio, subtitles }) => {
            match crate::video_options::spec_resolve(req.video, probe, enc, true) {
                Ok(base) => {
                    let c = TrackPlanContext {
                        target: req.video.target,
                        audio,
                        subtitles,
                        copy_mode: req.video.video_options == Some(VideoConvertOptions::Copy),
                        aac_available: enc.contains("aac"@),
                    };
                    let init = TrackPlanState {
                        args: base.args,
                        reencoded: base.reencoded,
                        retained: Seq::empty(),
                        omitted_audio: Seq::empty(),
                        omitted_subtitles: Seq::empty(),
                        audio_ordinal: 0,
                        subtitle_ordinal: 0,
                    };
                    lemma_fold_numbers_outputs(source.inventory@.1, init, c);
                },
                Err(_) => {},
            }
        },
        _ => {},
    }
}


// ---------------------------------------------------------------------------
// Output verification against the source
// ---------------------------------------------------------------------------

/// Whether `r` is `p` seen as a video-only source: only its video streams,
/// and no audio or subtitle facts.
pub open spec fn is_video_only_of(r: ProbeResult, p: ProbeResult) -> bool {
    &&& r.source_kind == p.source_kind
    &&& r.width == p.width
    &&& r.height == p.height
    &&& r.duration_ms == p.duration_ms
    &&& r.file_size == p.file_size
    &&& (r.video_details is Some) == (p.video_details is Some)
    &&& p.video_details matches Some(d) ==> r.video_details->0.streams@ == d.streams@.filter(
        |s: VideoStreamInfo| s.codec_type@ == "video"@,
    )
    &&& !r.has_audio
    &&& !r.has_subtitles
    &&& r.audio_codec is None
    &&& r.audio_codecs@.len() == 0
    &&& r.subtitle_codecs@.len() == 0
    &&& r.audio_details is None
}

/// An exact copy of an optional string.
fn copy_opt_string(o: &Option<String>) -> (r: Option<String>)
    ensures
        r == *o,
{
    match o {
        Some(s) => Some(s.clone()),
        None => None,
    }
}

/// A copy of a stream's facts.
fn copy_stream(v: &VideoStreamInfo) -> (r: VideoStreamInfo)
    ensures
        r == *v,
{
    VideoStreamInfo {
        index: v.index,
        codec_type: v.codec_type.clone(),
        codec_name: copy_opt_string(&v.codec_name),
        pixel_format: copy_opt_string(&v.pixel_format),
        color_transfer: copy_opt_string(&v.color_transfer),
        color_primaries: copy_opt_string(&v.color_primaries),
        color_space: copy_opt_string(&v.color_space),
        color_range: copy_opt_string(&v.color_range),
        field_order: copy_opt_string(&v.field_order),
        sample_aspect_ratio: copy_opt_string(&v.sample_aspect_ratio),
        average_frame_rate: v.average_frame_rate,
        base_frame_rate: v.base_frame_rate,
        time_base: v.time_base,
        rotation_degrees: v.rotation_degrees,
        rotation_ambiguous: v.rotation_ambiguous,
        attached_pic: v.attached_pic,
        start_time_ms: v.start_time_ms,
        duration_ms: v.duration_ms,
    }
}

/// The probe seen as a video-only source.
pub fn video_only_probe(p: &ProbeResult) -> (r: ProbeResult)
    ensures
        is_video_only_of(r, *p),
{
    let details = match &p.video_details {
        Some(d) => {
            let ghost all = d.streams@;
            let mut kept: Vec<VideoStreamInfo> = Vec::new();
            let mut i: usize = 0;
            while i < d.streams.len()
                invariant
                    all == d.streams@,
                    i <= all.len(),
                    kept@ == all.take(i as int).filter(
                        |s: VideoStreamInfo| s.codec_type@ == "video"@,
                    ),
                decreases all.len() - i,
            {
                proof {
                    assert(all.take(i + 1).drop_last() =~= all.take(i as int));
                    reveal(Seq::filter);
                }
                if str_eq(d.streams[i].codec_type.as_str(), "video") {
                    kept.push(copy_stream(&d.streams[i]));
                }
                i = i + 1;
            }
            assert(all.take(all.len() as int) =~= all);
            Some(crate::media::VideoProbeDetails { streams: kept })
        },
        None => None,
    };
    ProbeResult {
        video_details: details,
        duration_ms: p.duration_ms,
        width: p.width,
        height: p.height,
        video_codec: crate::video_options::clone_opt_string(&p.video_codec),
        audio_codec: None,
        file_size: p.file_size,
        container: crate::video_options::clone_opt_string(&p.container),
        has_video: p.has_video,
        has_audio: false,
        source_kind: p.source_kind,
        color_space: crate::video_options::clone_opt_string(&p.color_space),
        image_format: crate::video_options::clone_opt_string(&p.image_format),
        has_subtitles: false,
        subtitle_codecs: Vec::new(),
        audio_codecs: Vec::new(),
        image_has_alpha: p.image_has_alpha,
        audio_details: None,
        track_inventory: match &p.track_inventory {
            Some(i) => Some(i.copy()),
            None => None,
        },
    }
}

/// The frame interval (`frame_rate`) or time-base tick of a fact, in whole
/// milliseconds rounded up.
pub open spec fn spec_rational_interval_ms(f: Option<VideoRationalFact>, frame_rate: bool) -> Option<
    int,
> {
    match f {
        Some(VideoRationalFact::Exact { numerator, denominator }) => if frame_rate {
            Some((1000 * denominator + numerator - 1) / (numerator as int))
        } else {
            Some((1000 * numerator + denominator - 1) / (denominator as int))
        },
        _ => None,
    }
}

/// The frame interval or time-base tick of a fact, computed.
fn rational_interval_ms(f: Option<VideoRationalFact>, frame_rate: bool) -> (r: Option<u64>)
    requires
        frame_rate ==> crate::video_options::frame_rate_divisible(f),
        !frame_rate ==> crate::video_options::time_base_divisible(f),
    ensures
        crate::video_options::opt_u64(r) == spec_rational_interval_ms(f, frame_rate),
        r matches Some(x) ==> x <= 1000 * 0xffff_ffffu64,
{
    let (n, d) = match f {
        Some(VideoRationalFact::Exact { numerator, denominator }) => (
            numerator as u64,
            denominator as u64,
        ),
        _ => return None,
    };
    if frame_rate {
        let x: u64 = 1000 * d;
        assert((x + n - 1) / (n as int) <= x) by (nonlinear_arith)
            requires
                n >= 1,
                x >= 0,
        ;
        Some((x + n - 1) / n)
    } else {
        let x: u64 = 1000 * n;
        assert((x + d - 1) / (d as int) <= x) by (nonlinear_arith)
            requires
                d >= 1,
                x >= 0,
        ;
        Some((x + d - 1) / d)
    }
}

/// The timing tolerance of a source video: one frame interval plus one
/// time-base tick.
pub open spec fn spec_timing_tolerance(v: VideoStreamInfo) -> Result<int, Seq<char>> {
    match (
        spec_rational_interval_ms(v.average_frame_rate, true),
        spec_rational_interval_ms(v.time_base, false),
    ) {
        (None, _) => Err("Source frame rate cannot provide a bounded timing tolerance"@),
        (Some(_), None) => Err("Source time base cannot provide a bounded timing tolerance"@),
        (Some(f), Some(t)) => Ok(f + t),
    }
}

/// A retained stream's start and end in milliseconds.
pub open spec fn spec_endpoint(v: VideoStreamInfo) -> Result<(int, int), Seq<char>> {
    match (v.start_time_ms, v.duration_ms) {
        (None, _) => Err("Retained stream start time is unavailable"@),
        (Some(s), Some(d)) => if d > 0 {
            Ok((s as int, s + d))
        } else {
            Err("Retained stream endpoint is unavailable"@)
        },
        (Some(_), None) => Err("Retained stream endpoint is unavailable"@),
    }
}

/// A retained stream's start and end, computed.
fn endpoint(v: &VideoStreamInfo) -> (r: Result<(i128, i128), GoopError>)
    ensures
        match spec_endpoint(*v) {
            Ok((s, e)) => (r matches Ok((x, y)) && x == s && y == e),
            Err(m) => (r matches Err(e) && is_invalid_with(e, m)),
        },
{
    let start = match v.start_time_ms {
        Some(s) => s,
        None => return Err(invalid("Retained stream start time is unavailable")),
    };
    let duration = match v.duration_ms {
        Some(d) => if d > 0 {
            d
        } else {
            return Err(invalid("Retained stream endpoint is unavailable"));
        },
        None => return Err(invalid("Retained stream endpoint is unavailable")),
    };
    Ok((start as i128, start as i128 + duration as i128))
}

/// An optional flag rendered for a message: `Some(true)`, `Some(false)`
/// or `None`.
pub open spec fn spec_flag_text(f: Option<bool>) -> Seq<char> {
    match f {
        Some(true) => "Some(true)"@,
        Some(false) => "Some(false)"@,
        None => "None"@,
    }
}

fn flag_text(f: Option<bool>) -> (r: &'static str)
    ensures
        r@ == spec_flag_text(f),
{
    match f {
        Some(true) => "Some(true)",
        Some(false) => "Some(false)",
        None => "None",
    }
}

/// Whether any other disposition flag is set.
pub open spec fn any_other_flag(t: TrackView) -> bool {
    exists|i: int| 0 <= i < t.other.len() && (#[trigger] t.other[i]).1
}

/// Whether a finished auxiliary stream differs from its expected outcome.
pub open spec fn spec_output_mismatch(a: TrackView, o: OutcomeView, target: TargetFormat) -> bool {
    ||| a.index != o.output_stream_index
    ||| a.codec_type != o.source.codec_type
    ||| a.codec_name != o.output_codec_name
    ||| a.language != o.output_language
    ||| (!(target == TargetFormat::Mp4 || target == TargetFormat::Mov) && a.title != o.output_title)
    ||| a.default != o.output_default
    ||| a.forced != o.output_forced
    ||| a.malformed
    ||| any_other_flag(a)
}

/// The refusal of a mismatched finished stream, naming each fact beside
/// its expected value.
pub open spec fn spec_mismatch_message(a: TrackView, o: OutcomeView) -> Seq<char> {
    "Completed auxiliary stream "@ + decimal(a.index as nat) + " does not match expected output "@
        + decimal(o.output_stream_index as nat) + ": type \""@ + a.codec_type + "\"/\""@
        + o.source.codec_type + "\", codec "@ + spec_fact_text(a.codec_name) + "/"@
        + spec_fact_text(o.output_codec_name) + ", language "@ + spec_fact_text(a.language) + "/"@
        + spec_fact_text(o.output_language) + ", title "@ + spec_fact_text(a.title) + "/"@
        + spec_fact_text(o.output_title) + ", default "@ + spec_flag_text(a.default) + "/"@
        + spec_flag_text(o.output_default) + ", forced "@ + spec_flag_text(a.forced) + "/"@
        + spec_flag_text(o.output_forced)
}

/// An outcome completed with the facts of its finished stream.
pub open spec fn spec_completed_outcome(o: OutcomeView, a: TrackView, target: TargetFormat) -> OutcomeView {
    OutcomeView {
        output_codec_name: a.codec_name,
        output_language: a.language,
        output_title: if !(target == TargetFormat::Mp4 || target == TargetFormat::Mov) {
            a.title
        } else {
            o.output_title
        },
        output_default: a.default,
        output_forced: a.forced,
        ..o
    }
}

/// The retained outcomes matched pairwise with the finished auxiliary
/// streams, completed with their facts, or the first mismatch.
pub open spec fn spec_match_outputs(
    r: Seq<OutcomeView>,
    a: Seq<TrackView>,
    target: TargetFormat,
) -> Result<Seq<OutcomeView>, Seq<char>>
    decreases r.len(),
{
    if r.len() == 0 || a.len() < r.len() {
        Ok(Seq::empty())
    } else {
        match spec_match_outputs(r.drop_last(), a.take(r.len() - 1), target) {
            Err(m) => Err(m),
            Ok(p) => {
                let o = r.last();
                let t = a[r.len() - 1];
                if spec_output_mismatch(t, o, target) {
                    Err(spec_mismatch_message(t, o))
                } else {
                    Ok(p.push(spec_completed_outcome(o, t, target)))
                }
            },
        }
    }
}

proof fn lemma_match_outputs_sticks(
    r: Seq<OutcomeView>,
    a: Seq<TrackView>,
    target: TargetFormat,
    k: int,
)
    requires
        0 <= k <= r.len(),
        a.len() == r.len(),
        spec_match_outputs(r.take(k), a.take(k), target) is Err,
    ensures
        spec_match_outputs(r, a, target) == spec_match_outputs(r.take(k), a.take(k), target),
    decreases r.len() - k,
{
    if k < r.len() {
        assert(r.take(k + 1).drop_last() =~= r.take(k));
        assert(a.take(k + 1).take(k) =~= a.take(k));
        lemma_match_outputs_sticks(r, a, target, k + 1);
    } else {
        assert(r.take(k) =~= r);
        assert(a.take(k) =~= a);
    }
}

/// The position of the first stream with a source index.
pub open spec fn first_stream_with(s: Seq<VideoStreamInfo>, index: u32, video_only: bool) -> Option<
    int,
>
    decreases s.len(),
{
    if s.len() == 0 {
        None
    } else {
        match first_stream_with(s.drop_last(), index, video_only) {
            Some(k) => Some(k),
            None => {
                let x = s.last();
                if (video_only && x.codec_type@ == "video"@ && (index == u32::MAX || x.index
                    == index)) || (!video_only && x.index == index) {
                    Some(s.len() - 1)
                } else {
                    None
                }
            },
        }
    }
}

proof fn lemma_first_stream_prefix(s: Seq<VideoStreamInfo>, index: u32, video_only: bool, k: int)
    requires
        0 <= k <= s.len(),
        first_stream_with(s.take(k), index, video_only) is Some,
    ensures
        first_stream_with(s, index, video_only) == first_stream_with(s.take(k), index, video_only),
    decreases s.len() - k,
{
    if k < s.len() {
        assert(s.take(k + 1).drop_last() =~= s.take(k));
        lemma_first_stream_prefix(s, index, video_only, k + 1);
    } else {
        assert(s.take(k) =~= s);
    }
}

proof fn lemma_first_stream_bounds(s: Seq<VideoStreamInfo>, index: u32, video_only: bool)
    ensures
        first_stream_with(s, index, video_only) matches Some(k) ==> 0 <= k < s.len(),
    decreases s.len(),
{
    if s.len() > 0 {
        lemma_first_stream_bounds(s.drop_last(), index, video_only);
    }
}

/// Finds the first stream with a source index (or, with `video_only`, the
/// first video stream, at `index` unless `index` is `u32::MAX`).
fn find_stream(s: &Vec<VideoStreamInfo>, index: u32, video_only: bool) -> (r: Option<usize>)
    ensures
        match r {
            Some(k) => first_stream_with(s@, index, video_only) == Some(k as int),
            None => first_stream_with(s@, index, video_only) is None,
        },
{
    let mut i: usize = 0;
    while i < s.len()
        invariant
            i <= s@.len(),
            first_stream_with(s@.take(i as int), index, video_only) is None,
        decreases s@.len() - i,
    {
        proof {
            assert(s@.take(i + 1).drop_last() =~= s@.take(i as int));
        }
        let x = &s[i];
        let hit = if video_only {
            str_eq(x.codec_type.as_str(), "video") && (index == 0xffff_ffffu32 || x.index == index)
        } else {
            x.index == index
        };
        if hit {
            proof {
                lemma_first_stream_prefix(s@, index, video_only, i as int + 1);
            }
            return Some(i);
        }
        i = i + 1;
    }
    assert(s@.take(s@.len() as int) =~= s@);
    None
}


/// Every retained audio stream keeps its offset from the video start and
/// its relative end within the tolerance.
pub open spec fn spec_audio_timings(
    r: Seq<OutcomeView>,
    ss: Seq<VideoStreamInfo>,
    fs: Seq<VideoStreamInfo>,
    svs: int,
    avs: int,
    tol: int,
) -> Result<(), Seq<char>>
    decreases r.len(),
{
    if r.len() == 0 {
        Ok(())
    } else {
        match spec_audio_timings(r.drop_last(), ss, fs, svs, avs, tol) {
            Err(m) => Err(m),
            Ok(_) => {
                let o = r.last();
                if o.source.codec_type != "audio"@ {
                    Ok(())
                } else {
                    match first_stream_with(ss, o.source.index, false) {
                        None => Err("Source retained audio timing facts are unavailable"@),
                        Some(i) => match first_stream_with(fs, o.output_stream_index, false) {
                            None => Err("Completed retained audio timing facts are unavailable"@),
                            Some(j) => match (spec_endpoint(ss[i]), spec_endpoint(fs[j])) {
                                (Err(m), _) => Err(m),
                                (Ok(_), Err(m)) => Err(m),
                                (Ok((s0, e0)), Ok((s1, e1))) => if crate::video_options::abs_diff(
                                    s0 - svs,
                                    s1 - avs,
                                ) > tol || crate::video_options::abs_diff(e0 - svs, e1 - avs)
                                    > tol {
                                    Err(
                                        "Completed retained audio timing is outside the accepted tolerance"@,
                                    )
                                } else {
                                    Ok(())
                                },
                            },
                        },
                    }
                }
            },
        }
    }
}

proof fn lemma_audio_timings_sticks(
    r: Seq<OutcomeView>,
    ss: Seq<VideoStreamInfo>,
    fs: Seq<VideoStreamInfo>,
    svs: int,
    avs: int,
    tol: int,
    k: int,
)
    requires
        0 <= k <= r.len(),
        spec_audio_timings(r.take(k), ss, fs, svs, avs, tol) is Err,
    ensures
        spec_audio_timings(r, ss, fs, svs, avs, tol) == spec_audio_timings(
            r.take(k),
            ss,
            fs,
            svs,
            avs,
            tol,
        ),
    decreases r.len() - k,
{
    if k < r.len() {
        assert(r.take(k + 1).drop_last() =~= r.take(k));
        lemma_audio_timings_sticks(r, ss, fs, svs, avs, tol, k + 1);
    } else {
        assert(r.take(k) =~= r);
    }
}

/// The output verification of a video conversion with stream policies,
/// given the video-only views `va` of the output and `vs` of the source:
/// the video checks, then the exact retained set in order, then bounded
/// video and audio timing against the source. The result is the summary's
/// outcomes completed with the finished facts.
pub open spec fn spec_tracks_against_source(
    ve: VideoExecutionSummary,
    r: Seq<OutcomeView>,
    source: ProbeResult,
    actual: ProbeResult,
    target: TargetFormat,
    va: ProbeResult,
    vs: ProbeResult,
) -> Result<Seq<OutcomeView>, Seq<char>> {
    match crate::video_options::spec_validate_output(ve, va) {
        Err(m) => Err(m),
        Ok(_) => match (if ve.requested is Copy {
            crate::video_options::spec_validate_copy_facts(vs, va)
        } else {
            Ok(())
        }) {
            Err(m) => Err(m),
            Ok(_) => match actual.track_inventory {
                None => Err("Completed video is missing its verified stream inventory"@),
                Some(inv) => {
                    let s = inv@.1;
                    if s.len() != r.len() + 1 {
                        Err("Completed video stream count does not match the exact retained set"@)
                    } else if s[0].index != 0 || s[0].codec_type != "video"@ {
                        Err("Completed video stream 0 is not the primary video"@)
                    } else {
                        match spec_match_outputs(r, s.drop_first(), target) {
                            Err(m) => Err(m),
                            Ok(done) => match (source.video_details, actual.video_details) {
                                (None, _) => Err("Source timing facts are unavailable"@),
                                (Some(_), None) => Err("Completed timing facts are unavailable"@),
                                (Some(sd), Some(ad)) => match (
                                    first_stream_with(sd.streams@, u32::MAX, true),
                                    first_stream_with(ad.streams@, 0, true),
                                ) {
                                    (None, _) => Err("Source video timing facts are unavailable"@),
                                    (Some(_), None) => Err(
                                        "Completed video timing facts are unavailable"@,
                                    ),
                                    (Some(si), Some(ai)) => {
                                        let sv = sd.streams@[si];
                                        let av = ad.streams@[ai];
                                        match spec_timing_tolerance(sv) {
                                            Err(m) => Err(m),
                                            Ok(tol) => match (spec_endpoint(sv), spec_endpoint(av)) {
                                                (Err(m), _) => Err(m),
                                                (Ok(_), Err(m)) => Err(m),
                                                (Ok((svs, sve)), Ok((avs, ave))) => if crate::video_options::abs_diff(
                                                    sve - svs,
                                                    ave - avs,
                                                ) > tol {
                                                    Err(
                                                        "Completed video endpoint is outside the accepted timing tolerance"@,
                                                    )
                                                } else {
                                                    match spec_audio_timings(
                                                        done,
                                                        sd.streams@,
                                                        ad.streams@,
                                                        svs,
                                                        avs,
                                                        tol,
                                                    ) {
                                                        Err(m) => Err(m),
                                                        Ok(_) => Ok(done),
                                                    }
                                                },
                                            },
                                        }
                                    },
                                },
                            },
                        }
                    }
                },
            },
        },
    }
}

/// Any two video-only views of the same probes give the same verdict.
pub proof fn lemma_video_only_views_agree(
    ve: VideoExecutionSummary,
    r: Seq<OutcomeView>,
    source: ProbeResult,
    actual: ProbeResult,
    target: TargetFormat,
    va: ProbeResult,
    vs: ProbeResult,
    wa: ProbeResult,
    ws: ProbeResult,
)
    requires
        is_video_only_of(va, actual),
        is_video_only_of(wa, actual),
        is_video_only_of(vs, source),
        is_video_only_of(ws, source),
    ensures
        spec_tracks_against_source(ve, r, source, actual, target, va, vs)
            == spec_tracks_against_source(ve, r, source, actual, target, wa, ws),
{
    assert(crate::video_options::spec_validate_output(ve, va)
        == crate::video_options::spec_validate_output(ve, wa));
    assert(crate::video_options::spec_validate_copy_facts(vs, va)
        == crate::video_options::spec_validate_copy_facts(ws, wa));
}

/// Whether any other disposition flag is set, computed.
fn any_other(v: &Vec<(String, bool)>) -> (r: bool)
    ensures
        r == exists|i: int| 0 <= i < crate::tracks::flags_view(v@).len() && (
        #[trigger] crate::tracks::flags_view(v@)[i]).1,
{
    let mut i: usize = 0;
    while i < v.len()
        invariant
            i <= v@.len(),
            forall|j: int| 0 <= j < i ==> !(#[trigger] crate::tracks::flags_view(v@)[j]).1,
        decreases v@.len() - i,
    {
        if v[i].1 {
            assert(crate::tracks::flags_view(v@)[i as int].1);
            return true;
        }
        i = i + 1;
    }
    false
}

/// The refusal of a mismatched finished stream.
fn mismatch_error(a: &TrackIdentity, o: &VideoTrackStreamOutcome) -> (e: GoopError)
    ensures
        is_invalid_with(e, spec_mismatch_message(a@, o@)),
{
    let mut m = decorated("Completed auxiliary stream ", a.index, " does not match expected output ");
    let d = decimal_string(o.output_stream_index as u64);
    push_str(&mut m, d.as_str());
    push_str(&mut m, ": type \"");
    push_str(&mut m, a.codec_type.as_str());
    push_str(&mut m, "\"/\"");
    push_str(&mut m, o.source.codec_type.as_str());
    push_str(&mut m, "\", codec ");
    let t = fact_text(&a.codec_name);
    push_str(&mut m, t.as_str());
    push_str(&mut m, "/");
    let t = fact_text(&o.output_codec_name);
    push_str(&mut m, t.as_str());
    push_str(&mut m, ", language ");
    let t = fact_text(&a.language);
    push_str(&mut m, t.as_str());
    push_str(&mut m, "/");
    let t = fact_text(&o.output_language);
    push_str(&mut m, t.as_str());
    push_str(&mut m, ", title ");
    let t = fact_text(&a.title);
    push_str(&mut m, t.as_str());
    push_str(&mut m, "/");
    let t = fact_text(&o.output_title);
    push_str(&mut m, t.as_str());
    push_str(&mut m, ", default ");
    push_str(&mut m, flag_text(a.disposition.default));
    push_str(&mut m, "/");
    push_str(&mut m, flag_text(o.output_default));
    push_str(&mut m, ", forced ");
    push_str(&mut m, flag_text(a.disposition.forced));
    push_str(&mut m, "/");
    push_str(&mut m, flag_text(o.output_forced));
    invalid_owned(m)
}

/// Matches the retained outcomes pairwise with the finished auxiliary
/// streams (after the video stream) and completes them.
#[verifier::loop_isolation(false)]
fn match_outputs(
    retained: &Vec<VideoTrackStreamOutcome>,
    streams: &Vec<TrackIdentity>,
    target: TargetFormat,
) -> (r: Result<Vec<VideoTrackStreamOutcome>, GoopError>)
    requires
        streams@.len() == retained@.len() + 1,
    ensures
        match spec_match_outputs(
            outcomes_view(retained@),
            tracks_view(streams@).drop_first(),
            target,
        ) {
            Ok(p) => (r matches Ok(v) && outcomes_view(v@) == p),
            Err(m) => (r matches Err(e) && is_invalid_with(e, m)),
        },
{
    let ghost rs = outcomes_view(retained@);
    let ghost ts = tracks_view(streams@).drop_first();
    let mut done: Vec<VideoTrackStreamOutcome> = Vec::new();
    let mut i: usize = 0;
    let mp4 = target == TargetFormat::Mp4 || target == TargetFormat::Mov;
    assert(rs.take(0) =~= Seq::<OutcomeView>::empty());
    assert(outcomes_view(done@) =~= Seq::<OutcomeView>::empty());
    while i < retained.len()
        invariant
            i <= rs.len(),
            rs.len() == ts.len(),
            spec_match_outputs(rs.take(i as int), ts.take(i as int), target) == Ok::<
                Seq<OutcomeView>,
                Seq<char>,
            >(outcomes_view(done@)),
        decreases rs.len() - i,
    {
        proof {
            assert(rs.take(i + 1).drop_last() =~= rs.take(i as int));
            assert(ts.take(i + 1).take(i as int) =~= ts.take(i as int));
            assert(rs.take(i + 1).last() == retained@[i as int]@);
            assert(ts.take(i + 1)[i as int] == streams@[i + 1]@);
        }
        let o = &retained[i];
        let a = &streams[i + 1];
        let same_type = str_eq(a.codec_type.as_str(), o.source.codec_type.as_str());
        let same_codec = a.codec_name.same(&o.output_codec_name);
        let same_language = a.language.same(&o.output_language);
        let same_title = mp4 || a.title.same(&o.output_title);
        let flagged = any_other(&a.disposition.other);
        let mismatch = a.index != o.output_stream_index || !same_type || !same_codec
            || !same_language || !same_title || a.disposition.default != o.output_default
            || a.disposition.forced != o.output_forced || a.disposition.malformed || flagged;
        if mismatch {
            proof {
                if flagged {
                    let fs = crate::tracks::flags_view(a.disposition.other@);
                    let k = choose|k: int| 0 <= k < fs.len() && (#[trigger] fs[k]).1;
                    assert(a@.other[k].1);
                }
                assert(spec_output_mismatch(a@, o@, target));
                assert(spec_match_outputs(rs.take(i + 1), ts.take(i + 1), target) is Err);
                lemma_match_outputs_sticks(rs, ts, target, i as int + 1);
            }
            return Err(mismatch_error(a, o));
        }
        let mut c = o.copy();
        c.output_codec_name = a.codec_name.copy();
        c.output_language = a.language.copy();
        if !mp4 {
            c.output_title = a.title.copy();
        }
        c.output_default = a.disposition.default;
        c.output_forced = a.disposition.forced;
        let ghost before = done@;
        done.push(c);
        proof {
            assert(outcomes_view(done@) =~= outcomes_view(before).push(c@));
        }
        i = i + 1;
    }
    assert(rs.take(rs.len() as int) =~= rs);
    assert(ts.take(ts.len() as int) =~= ts);
    Ok(done)
}

/// The timing tolerance of a source video, computed.
fn timing_tolerance(v: &VideoStreamInfo) -> (r: Result<u64, GoopError>)
    requires
        crate::video_options::frame_rate_divisible(v.average_frame_rate),
        crate::video_options::time_base_divisible(v.time_base),
    ensures
        match spec_timing_tolerance(*v) {
            Ok(t) => (r matches Ok(x) && x == t),
            Err(m) => (r matches Err(e) && is_invalid_with(e, m)),
        },
{
    let frame = match rational_interval_ms(v.average_frame_rate, true) {
        Some(f) => f,
        None => return Err(invalid("Source frame rate cannot provide a bounded timing tolerance")),
    };
    let tick = match rational_interval_ms(v.time_base, false) {
        Some(t) => t,
        None => return Err(invalid("Source time base cannot provide a bounded timing tolerance")),
    };
    Ok(frame + tick)
}

/// `|a - b|` for endpoints well inside `i128`.
fn distance(a: i128, b: i128) -> (r: i128)
    requires
        -0x1_0000_0000_0000_0000_0000 < a < 0x1_0000_0000_0000_0000_0000,
        -0x1_0000_0000_0000_0000_0000 < b < 0x1_0000_0000_0000_0000_0000,
    ensures
        r == crate::video_options::abs_diff(a as int, b as int),
{
    if a >= b {
        a - b
    } else {
        b - a
    }
}

/// Checks the timing of every retained audio stream.
#[verifier::loop_isolation(false)]
fn audio_timings(
    done: &Vec<VideoTrackStreamOutcome>,
    ss: &Vec<VideoStreamInfo>,
    fs: &Vec<VideoStreamInfo>,
    svs: i128,
    avs: i128,
    tol: u64,
) -> (r: Result<(), GoopError>)
    requires
        -0x1_0000_0000_0000_0000 <= svs < 0x1_0000_0000_0000_0000,
        -0x1_0000_0000_0000_0000 <= avs < 0x1_0000_0000_0000_0000,
    ensures
        match spec_audio_timings(outcomes_view(done@), ss@, fs@, svs as int, avs as int, tol as int) {
            Ok(_) => r is Ok,
            Err(m) => (r matches Err(e) && is_invalid_with(e, m)),
        },
{
    let ghost rs = outcomes_view(done@);
    let mut i: usize = 0;
    while i < done.len()
        invariant
            i <= rs.len(),
            rs == outcomes_view(done@),
            spec_audio_timings(rs.take(i as int), ss@, fs@, svs as int, avs as int, tol as int)
                is Ok,
        decreases rs.len() - i,
    {
        proof {
            assert(rs.take(i + 1).drop_last() =~= rs.take(i as int));
            assert(rs.take(i + 1).last() == done@[i as int]@);
        }
        let o = &done[i];
        if str_eq(o.source.codec_type.as_str(), "audio") {
            proof {
                lemma_first_stream_bounds(ss@, o.source.index, false);
                lemma_first_stream_bounds(fs@, o.output_stream_index, false);
            }
            let si = match find_stream(ss, o.source.index, false) {
                Some(k) => k,
                None => {
                    proof {
                        lemma_audio_timings_sticks(rs, ss@, fs@, svs as int, avs as int, tol as int, i as int + 1);
                    }
                    return Err(invalid("Source retained audio timing facts are unavailable"));
                },
            };
            let fi = match find_stream(fs, o.output_stream_index, false) {
                Some(k) => k,
                None => {
                    proof {
                        lemma_audio_timings_sticks(rs, ss@, fs@, svs as int, avs as int, tol as int, i as int + 1);
                    }
                    return Err(invalid("Completed retained audio timing facts are unavailable"));
                },
            };
            let (s0, e0) = match endpoint(&ss[si]) {
                Ok(p) => p,
                Err(e) => {
                    proof {
                        lemma_audio_timings_sticks(rs, ss@, fs@, svs as int, avs as int, tol as int, i as int + 1);
                    }
                    return Err(e);
                },
            };
            let (s1, e1) = match endpoint(&fs[fi]) {
                Ok(p) => p,
                Err(e) => {
                    proof {
                        lemma_audio_timings_sticks(rs, ss@, fs@, svs as int, avs as int, tol as int, i as int + 1);
                    }
                    return Err(e);
                },
            };
            if distance(s0 - svs, s1 - avs) > tol as i128 || distance(e0 - svs, e1 - avs)
                > tol as i128 {
                proof {
                    lemma_audio_timings_sticks(rs, ss@, fs@, svs as int, avs as int, tol as int, i as int + 1);
                }
                return Err(
                    invalid("Completed retained audio timing is outside the accepted tolerance"),
                );
            }
        }
        i = i + 1;
    }
    assert(rs.take(rs.len() as int) =~= rs);
    Ok(())
}

/// Whether the timing tolerance of a source can be computed: its first
/// video stream's frame rate and time base divide.
pub open spec fn source_timing_divisible(source: ProbeResult) -> bool {
    source.video_details matches Some(sd) ==> match first_stream_with(sd.streams@, u32::MAX, true) {
        Some(si) => crate::video_options::frame_rate_divisible(sd.streams@[si].average_frame_rate)
            && crate::video_options::time_base_divisible(sd.streams@[si].time_base),
        None => true,
    }
}

/// Verifies a finished video conversion with stream policies against its
/// fresh source probe and returns the track summary completed with the
/// finished stream facts.
#[verifier::rlimit(60)]
pub fn validate_output_against_source(
    video_expected: &VideoExecutionSummary,
    track_expected: &VideoTrackExecutionSummary,
    source: &ProbeResult,
    actual: &ProbeResult,
    target: TargetFormat,
) -> (r: Result<VideoTrackExecutionSummary, GoopError>)
    requires
        source_timing_divisible(*source),
    ensures
        forall|va: ProbeResult, vs: ProbeResult|
            #![trigger is_video_only_of(va, *actual), is_video_only_of(vs, *source)]
            is_video_only_of(va, *actual) && is_video_only_of(vs, *source) ==> match spec_tracks_against_source(
                *video_expected,
                outcomes_view(track_expected.retained@),
                *source,
                *actual,
                target,
                va,
                vs,
            ) {
                Ok(done) => (r matches Ok(x) && outcomes_view(x.retained@) == done
                    && x.requested@ == track_expected.requested@ && tracks_view(
                    x.omitted_audio@,
                ) == tracks_view(track_expected.omitted_audio@) && tracks_view(
                    x.omitted_subtitles@,
                ) == tracks_view(track_expected.omitted_subtitles@) && views(x.notices@) == views(
                    track_expected.notices@,
                )),
                Err(m) => (r matches Err(e) && is_invalid_with(e, m)),
            },
{
    let vs = video_only_probe(source);
    let va = video_only_probe(actual);
    let ghost rv = outcomes_view(track_expected.retained@);
    proof {
        assert forall|wa: ProbeResult, ws: ProbeResult|
            is_video_only_of(wa, *actual) && is_video_only_of(ws, *source) implies spec_tracks_against_source(
            *video_expected,
            rv,
            *source,
            *actual,
            target,
            wa,
            ws,
        ) == spec_tracks_against_source(
            *video_expected,
            rv,
            *source,
            *actual,
            target,
            va,
            vs,
        ) by {
            lemma_video_only_views_agree(
                *video_expected,
                rv,
                *source,
                *actual,
                target,
                wa,
                ws,
                va,
                vs,
            );
        }
    }
    match crate::video_options::validate_output(video_expected, &va) {
        Ok(_) => {},
        Err(e) => return Err(e),
    }
    if let VideoConvertOptions::Copy = video_expected.requested {
        match crate::video_options::validate_copy_facts(&vs, &va) {
            Ok(_) => {},
            Err(e) => return Err(e),
        }
    }
    let inventory = match &actual.track_inventory {
        Some(i) => i,
        None => return Err(invalid("Completed video is missing its verified stream inventory")),
    };
    let streams = &inventory.streams;
    if streams.len() == 0 || streams.len() - 1 != track_expected.retained.len() {
        return Err(invalid("Completed video stream count does not match the exact retained set"));
    }
    assert(tracks_view(streams@)[0] == streams@[0]@);
    if streams[0].index != 0 || !str_eq(streams[0].codec_type.as_str(), "video") {
        return Err(invalid("Completed video stream 0 is not the primary video"));
    }
    let done = match match_outputs(&track_expected.retained, streams, target) {
        Ok(d) => d,
        Err(e) => return Err(e),
    };
    let sd = match &source.video_details {
        Some(d) => d,
        None => return Err(invalid("Source timing facts are unavailable")),
    };
    let ad = match &actual.video_details {
        Some(d) => d,
        None => return Err(invalid("Completed timing facts are unavailable")),
    };
    proof {
        lemma_first_stream_bounds(sd.streams@, 0xffff_ffffu32, true);
        lemma_first_stream_bounds(ad.streams@, 0, true);
    }
    let si = match find_stream(&sd.streams, 0xffff_ffffu32, true) {
        Some(k) => k,
        None => return Err(invalid("Source video timing facts are unavailable")),
    };
    let ai = match find_stream(&ad.streams, 0, true) {
        Some(k) => k,
        None => return Err(invalid("Completed video timing facts are unavailable")),
    };
    let sv = &sd.streams[si];
    let av = &ad.streams[ai];
    let tol = match timing_tolerance(sv) {
        Ok(t) => t,
        Err(e) => return Err(e),
    };
    let (svs, sve) = match endpoint(sv) {
        Ok(p) => p,
        Err(e) => return Err(e),
    };
    let (avs, ave) = match endpoint(av) {
        Ok(p) => p,
        Err(e) => return Err(e),
    };
    if distance(sve - svs, ave - avs) > tol as i128 {
        return Err(invalid("Completed video endpoint is outside the accepted timing tolerance"));
    }
    match audio_timings(&done, &sd.streams, &ad.streams, svs, avs, tol) {
        Ok(_) => {},
        Err(e) => return Err(e),
    }
    let mut notices: Vec<String> = Vec::new();
    crate::video_options::append_all(&mut notices, &track_expected.notices);
    assert(views(notices@) =~= views(track_expected.notices@));
    Ok(
        VideoTrackExecutionSummary {
            requested: track_expected.requested.copy(),
            retained: done,
            omitted_audio: crate::tracks::copy_tracks(&track_expected.omitted_audio),
            omitted_subtitles: crate::tracks::copy_tracks(&track_expected.omitted_subtitles),
            notices,
        },
    )
}

} // verus!
