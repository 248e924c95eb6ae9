//! Explicit audio-track selection over a bound source: why selection can be
//! unavailable, which stream a request selects, and what the conversion
//! discloses and must show.
use vstd::prelude::*;
use crate::error::{invalid, invalid_owned, is_invalid_with, GoopError};
use crate::media::{AudioStreamInfo, ProbeResult};
use crate::subtitle::opt_view;
use crate::text::{decimal, decimal_string, owned, push_str, str_eq, views};
use crate::tracks::{
    inventory_has_malformed_identity, spec_inventory_has_malformed_identity, tracks_view,
    OptionsView, TrackConvertOptions, TrackIdentity, TrackSourceBinding, TrackView,
};

verus! {

broadcast use vstd::string::group_string_axioms;

/// Why a source's file identity cannot be bound for track selection.
#[derive(Debug, Clone, Copy, PartialEq, Eq, Structural)]
pub enum SourceIdentityLimit {
    PreEpochModified,
    ModifiedOutOfRange,
    NonUtf8CanonicalPath,
}

impl SourceIdentityLimit {
    /// The refusal of an explicit selection that needs a binding.
    pub open spec fn spec_strict_message(self) -> Seq<char> {
        match self {
            SourceIdentityLimit::PreEpochModified => "Track selection does not support pre-epoch modification times"@,
            SourceIdentityLimit::ModifiedOutOfRange => "Source modification time is outside the supported range"@,
            SourceIdentityLimit::NonUtf8CanonicalPath => "Track selection requires a UTF-8 source path"@,
        }
    }

    /// The refusal of an explicit selection that needs a binding.
    pub fn strict_error(self) -> (e: GoopError)
        ensures
            is_invalid_with(e, self.spec_strict_message()),
    {
        invalid(
            match self {
                SourceIdentityLimit::PreEpochModified => "Track selection does not support pre-epoch modification times",
                SourceIdentityLimit::ModifiedOutOfRange => "Source modification time is outside the supported range",
                SourceIdentityLimit::NonUtf8CanonicalPath => "Track selection requires a UTF-8 source path",
            },
        )
    }

    /// Why inspection offers no track selection for such a source.
    pub open spec fn spec_unavailable_reason(self) -> Seq<char> {
        match self {
            SourceIdentityLimit::PreEpochModified => "Audio track selection is unavailable because the source modification time predates 1970; use Automatic"@,
            SourceIdentityLimit::ModifiedOutOfRange => "Audio track selection is unavailable because the source modification time is outside the supported range; use Automatic"@,
            SourceIdentityLimit::NonUtf8CanonicalPath => "Audio track selection is unavailable because the canonical source path is not valid UTF-8; use Automatic"@,
        }
    }

    /// Why inspection offers no track selection for such a source.
    pub fn unavailable_reason(self) -> (r: &'static str)
        ensures
            r@ == self.spec_unavailable_reason(),
    {
        match self {
            SourceIdentityLimit::PreEpochModified => "Audio track selection is unavailable because the source modification time predates 1970; use Automatic",
            SourceIdentityLimit::ModifiedOutOfRange => "Audio track selection is unavailable because the source modification time is outside the supported range; use Automatic",
            SourceIdentityLimit::NonUtf8CanonicalPath => "Audio track selection is unavailable because the canonical source path is not valid UTF-8; use Automatic",
        }
    }
}

/// Why a probe with audio publishes no selection binding: no complete
/// inventory, a malformed stream identity, or (otherwise) a binding over
/// the size limit. A probe without audio, or with a binding, has none.
pub open spec fn spec_source_unavailable_reason(probe: ProbeResult, has_binding: bool) -> Option<
    Seq<char>,
> {
    if !probe.has_audio || has_binding {
        None
    } else {
        match probe.track_inventory {
            None => Some(
                "Audio track selection requires a complete bounded stream inventory; reinspect the source or use Automatic"@,
            ),
            Some(i) => if spec_inventory_has_malformed_identity(i@.1) {
                Some(
                    "Audio track selection is unavailable because the source reported malformed stream identity; use Automatic"@,
                )
            } else {
                Some(
                    "Audio track selection is unavailable because the source binding exceeds the 64 KiB safety limit; use Automatic"@,
                )
            },
        }
    }
}

/// Explains why a probe with audio cannot publish an explicit-selection
/// binding; a missing inventory, malformed identity or oversized binding
/// keeps Automatic conversion usable while disabling explicit selection.
pub fn source_unavailable_reason(probe: &ProbeResult, binding: Option<&TrackSourceBinding>) -> (r:
    Option<&'static str>)
    ensures
        opt_view(r) == spec_source_unavailable_reason(*probe, binding is Some),
{
    if !probe.has_audio || binding.is_some() {
        return None;
    }
    match &probe.track_inventory {
        None => Some(
            "Audio track selection requires a complete bounded stream inventory; reinspect the source or use Automatic",
        ),
        Some(i) => if inventory_has_malformed_identity(i) {
            Some(
                "Audio track selection is unavailable because the source reported malformed stream identity; use Automatic",
            )
        } else {
            Some(
                "Audio track selection is unavailable because the source binding exceeds the 64 KiB safety limit; use Automatic",
            )
        },
    }
}

/// Requires an exact match between a previously admitted binding and
/// fresh facts.
pub fn verify_source_binding(expected: &TrackSourceBinding, actual: Option<&TrackSourceBinding>) -> (r:
    Result<(), GoopError>)
    ensures
        r is Ok <==> (actual matches Some(a) && a@ == expected@),
        r matches Err(e) ==> is_invalid_with(
            e,
            "The source changed after track selection; reinspect it and choose the track again"@,
        ),
{
    let same = match actual {
        Some(a) => a.same(expected),
        None => false,
    };
    if !same {
        return Err(
            invalid(
                "The source changed after track selection; reinspect it and choose the track again",
            ),
        );
    }
    Ok(())
}

/// The position of the first audio stream with source index `index`.
pub open spec fn first_audio_with(s: Seq<TrackView>, index: u32) -> Option<int>
    decreases s.len(),
{
    if s.len() == 0 {
        None
    } else {
        match first_audio_with(s.drop_last(), index) {
            Some(k) => Some(k),
            None => if s.last().index == index && s.last().codec_type == "audio"@ {
                Some(s.len() - 1)
            } else {
                None
            },
        }
    }
}

proof fn lemma_first_audio_prefix(s: Seq<TrackView>, index: u32, k: int)
    requires
        0 <= k <= s.len(),
        first_audio_with(s.take(k), index) is Some,
    ensures
        first_audio_with(s, index) == first_audio_with(s.take(k), index),
    decreases s.len() - k,
{
    if k < s.len() {
        assert(s.take(k + 1).drop_last() =~= s.take(k));
        lemma_first_audio_prefix(s, index, k + 1);
    } else {
        assert(s.take(k) =~= s);
    }
}

proof fn lemma_first_audio_bounds(s: Seq<TrackView>, index: u32)
    ensures
        first_audio_with(s, index) matches Some(k) ==> 0 <= k < s.len() && s[k].index == index
            && s[k].codec_type == "audio"@,
    decreases s.len(),
{
    if s.len() > 0 {
        lemma_first_audio_bounds(s.drop_last(), index);
    }
}

/// The stream an audio selection names within fresh probe facts: none
/// without an audio selection; refused when the probe has no inventory,
/// the inventory changed, or the selected audio stream is gone.
pub open spec fn spec_selected_track(options: Option<TrackConvertOptions>, probe: ProbeResult) -> Result<
    Option<TrackView>,
    Seq<char>,
> {
    match options {
        Some(TrackConvertOptions::Audio { source, stream_index }) => match probe.track_inventory {
            None => Err(
                "Fresh track identity is unavailable; reinspect the source before converting"@,
            ),
            Some(i) => if i@ != source.inventory@ {
                Err(
                    "The source track inventory changed; reinspect it and choose the track again"@,
                )
            } else {
                match first_audio_with(i@.1, stream_index) {
                    None => Err(
                        "The selected audio track is no longer present; reinspect the source"@,
                    ),
                    Some(k) => Ok(Some(i@.1[k])),
                }
            },
        },
        _ => Ok(None),
    }
}

/// Finds the audio stream an explicit selection names.
#[verifier::loop_isolation(false)]
pub fn selected_track<'a>(options: &Option<TrackConvertOptions>, probe: &'a ProbeResult) -> (r:
    Result<Option<&'a TrackIdentity>, GoopError>)
    ensures
        match spec_selected_track(*options, *probe) {
            Ok(None) => r matches Ok(None),
            Ok(Some(t)) => (r matches Ok(Some(x)) && x@ == t),
            Err(m) => (r matches Err(e) && is_invalid_with(e, m)),
        },
{
    let (source, stream_index) = match options {
        Some(TrackConvertOptions::Audio { source, stream_index }) => (source, *stream_index),
        _ => return Ok(None),
    };
    let inventory = match &probe.track_inventory {
        Some(i) => i,
        None => return Err(
            invalid("Fresh track identity is unavailable; reinspect the source before converting"),
        ),
    };
    if !inventory.same(&source.inventory) {
        return Err(
            invalid("The source track inventory changed; reinspect it and choose the track again"),
        );
    }
    let ghost s = tracks_view(inventory.streams@);
    let mut i: usize = 0;
    while i < inventory.streams.len()
        invariant
            s == tracks_view(inventory.streams@),
            i <= s.len(),
            first_audio_with(s.take(i as int), stream_index) is None,
        decreases s.len() - i,
    {
        proof {
            assert(s.take(i + 1).drop_last() =~= s.take(i as int));
            assert(s.take(i + 1).last() == inventory.streams@[i as int]@);
        }
        let t = &inventory.streams[i];
        if t.index == stream_index && str_eq(t.codec_type.as_str(), "audio") {
            proof {
                lemma_first_audio_prefix(s, stream_index, i as int + 1);
            }
            return Ok(Some(t));
        }
        i = i + 1;
    }
    assert(s.take(s.len() as int) =~= s);
    Err(invalid("The selected audio track is no longer present; reinspect the source"))
}

/// The disclosed outcome of an explicit audio-track selection.
#[derive(Debug, Clone, PartialEq, Eq)]
pub struct TrackExecutionSummary {
    pub requested: TrackConvertOptions,
    pub selected: TrackIdentity,
    pub dropped_audio: Vec<TrackIdentity>,
    pub dropped_other: Vec<TrackIdentity>,
    pub output_stream_index: u32,
    pub notices: Vec<String>,
}

/// The audio streams other than the selected one, in order.
pub open spec fn spec_dropped_audio(s: Seq<TrackView>, selected: u32) -> Seq<TrackView> {
    s.filter(|t: TrackView| t.codec_type == "audio"@ && t.index != selected)
}

/// The streams that are not audio, in order.
pub open spec fn spec_dropped_other(s: Seq<TrackView>) -> Seq<TrackView> {
    s.filter(|t: TrackView| t.codec_type != "audio"@)
}

/// The notice for `n` omitted streams of a kind.
pub open spec fn omitted_notice(n: nat, kind: Seq<char>) -> Seq<Seq<char>> {
    if n == 0 {
        Seq::empty()
    } else {
        seq![
            decimal(n) + " "@ + kind + " "@ + (if n == 1 {
                "stream was"@
            } else {
                "streams were"@
            }) + " omitted"@,
        ]
    }
}

/// Whether `r` discloses the selection of `t` from the bound inventory.
pub open spec fn is_selection_summary(
    r: TrackExecutionSummary,
    options: TrackConvertOptions,
    t: TrackView,
) -> bool {
    let s = match options@ {
        OptionsView::Audio(b, _) => b.inventory.1,
        OptionsView::Video(b, _, _) => b.inventory.1,
    };
    let a = spec_dropped_audio(s, t.index);
    let o = spec_dropped_other(s);
    &&& r.requested@ == options@
    &&& r.selected@ == t
    &&& tracks_view(r.dropped_audio@) == a
    &&& tracks_view(r.dropped_other@) == o
    &&& r.output_stream_index == 0
    &&& views(r.notices@) == omitted_notice(a.len(), "additional audio"@) + omitted_notice(
        o.len(),
        "non-audio"@,
    )
}

/// How many audio streams of `s` carry the source index `selected`.
pub open spec fn selected_count(s: Seq<TrackView>, selected: u32) -> nat
    decreases s.len(),
{
    if s.len() == 0 {
        0
    } else {
        selected_count(s.drop_last(), selected) + if s.last().codec_type == "audio"@
            && s.last().index == selected {
            1nat
        } else {
            0nat
        }
    }
}

/// Whether no two streams share a source index.
pub open spec fn distinct_indices(s: Seq<TrackView>) -> bool {
    forall|i: int, j: int| 0 <= i < j < s.len() ==> #[trigger] s[i].index != #[trigger] s[j].index
}

proof fn lemma_dropped_partition(s: Seq<TrackView>, selected: u32)
    ensures
        spec_dropped_audio(s, selected).len() + spec_dropped_other(s).len() + selected_count(
            s,
            selected,
        ) == s.len(),
    decreases s.len(),
{
    reveal(Seq::filter);
    if s.len() > 0 {
        lemma_dropped_partition(s.drop_last(), selected);
    }
}

proof fn lemma_selected_count(s: Seq<TrackView>, selected: u32)
    requires
        distinct_indices(s),
    ensures
        first_audio_with(s, selected) is None ==> selected_count(s, selected) == 0,
        first_audio_with(s, selected) is Some ==> selected_count(s, selected) == 1,
    decreases s.len(),
{
    if s.len() > 0 {
        let d = s.drop_last();
        assert(distinct_indices(d)) by {
            assert forall|i: int, j: int| 0 <= i < j < d.len() implies d[i].index != d[j].index by {
                assert(d[i] == s[i] && d[j] == s[j]);
            }
        }
        lemma_selected_count(d, selected);
        lemma_first_audio_bounds(d, selected);
        if let Some(k) = first_audio_with(d, selected) {
            assert(s[k] == d[k]);
            assert(s[k].index != s[s.len() - 1].index);
        }
    }
}

/// An audio selection accounts for every stream of the bound inventory:
/// when no two streams share an index, the selected stream and the
/// disclosed dropped streams together are all of them.
pub proof fn lemma_selection_accounts_for_every_stream(s: Seq<TrackView>, selected: u32)
    requires
        distinct_indices(s),
        first_audio_with(s, selected) is Some,
    ensures
        spec_dropped_audio(s, selected).len() + spec_dropped_other(s).len() + 1 == s.len(),
{
    lemma_dropped_partition(s, selected);
    lemma_selected_count(s, selected);
}

/// The streams of `s` kept by a filter on codec type and index.
fn filter_tracks(v: &Vec<TrackIdentity>, audio: bool, selected: u32) -> (r: Vec<TrackIdentity>)
    ensures
        audio ==> tracks_view(r@) == spec_dropped_audio(tracks_view(v@), selected),
        !audio ==> tracks_view(r@) == spec_dropped_other(tracks_view(v@)),
{
    let ghost s = tracks_view(v@);
    let mut r: Vec<TrackIdentity> = Vec::new();
    let mut i: usize = 0;
    while i < v.len()
        invariant
            s == tracks_view(v@),
            i <= s.len(),
            audio ==> tracks_view(r@) == spec_dropped_audio(s.take(i as int), selected),
            !audio ==> tracks_view(r@) == spec_dropped_other(s.take(i as int)),
        decreases s.len() - i,
    {
        proof {
            assert(s.take(i + 1).drop_last() =~= s.take(i as int));
            assert(s.take(i + 1).last() == v@[i as int]@);
            reveal(Seq::filter);
        }
        let t = &v[i];
        let is_audio = str_eq(t.codec_type.as_str(), "audio");
        let keep = if audio {
            is_audio && t.index != selected
        } else {
            !is_audio
        };
        if keep {
            let ghost before = r@;
            r.push(t.copy());
            proof {
                assert(tracks_view(r@) =~= tracks_view(before).push(t@));
            }
        }
        i = i + 1;
    }
    assert(s.take(s.len() as int) =~= s);
    r
}

/// The notice for `n` omitted streams of a kind, computed.
fn push_omitted(notices: &mut Vec<String>, n: usize, kind: &str)
    ensures
        views(final(notices)@) == views(old(notices)@) + omitted_notice(n as nat, kind@),
{
    let ghost start = views(notices@);
    if n == 0 {
        assert(views(notices@) =~= start + omitted_notice(n as nat, kind@));
        return;
    }
    let d = decimal_string(n as u64);
    let mut m = owned(d.as_str());
    push_str(&mut m, " ");
    push_str(&mut m, kind);
    push_str(&mut m, " ");
    push_str(
        &mut m,
        if n == 1 {
            "stream was"
        } else {
            "streams were"
        },
    );
    push_str(&mut m, " omitted");
    let ghost before = notices@;
    notices.push(m);
    proof {
        assert(views(notices@) =~= views(before).push(m@));
    }
}

/// Resolves an explicit audio selection into its disclosure: the selected
/// stream, every other stream it drops, and notices counting them.
pub fn resolve(options: &Option<TrackConvertOptions>, probe: &ProbeResult) -> (r: Result<
    Option<TrackExecutionSummary>,
    GoopError,
>)
    ensures
        match spec_selected_track(*options, *probe) {
            Ok(None) => r matches Ok(None),
            Ok(Some(t)) => (r matches Ok(Some(x)) && (options matches Some(o)
                && is_selection_summary(x, *o, t))),
            Err(m) => (r matches Err(e) && is_invalid_with(e, m)),
        },
{
    let selected = match selected_track(options, probe) {
        Ok(Some(t)) => t,
        Ok(None) => return Ok(None),
        Err(e) => return Err(e),
    };
    let requested = match options {
        Some(o) => o,
        None => return Ok(None),
    };
    let source = match requested {
        TrackConvertOptions::Audio { source, .. } => source,
        TrackConvertOptions::Video { source, .. } => source,
    };
    let inventory = &source.inventory.streams;
    let dropped_audio = filter_tracks(inventory, true, selected.index);
    let dropped_other = filter_tracks(inventory, false, selected.index);
    let mut notices: Vec<String> = Vec::new();
    proof {
        assert(tracks_view(dropped_audio@).len() == dropped_audio@.len());
        assert(tracks_view(dropped_other@).len() == dropped_other@.len());
        assert(views(notices@) =~= Seq::<Seq<char>>::empty());
    }
    push_omitted(&mut notices, dropped_audio.len(), "additional audio");
    push_omitted(&mut notices, dropped_other.len(), "non-audio");
    Ok(
        Some(
            TrackExecutionSummary {
                requested: requested.copy(),
                selected: selected.copy(),
                dropped_audio,
                dropped_other,
                output_stream_index: 0,
                notices,
            },
        ),
    )
}

/// The position of the first audio processing fact with source index
/// `index`.
pub open spec fn first_audio_fact_with(s: Seq<AudioStreamInfo>, index: u32) -> Option<int>
    decreases s.len(),
{
    if s.len() == 0 {
        None
    } else {
        match first_audio_fact_with(s.drop_last(), index) {
            Some(k) => Some(k),
            None => if s.last().index == index {
                Some(s.len() - 1)
            } else {
                None
            },
        }
    }
}

proof fn lemma_first_audio_fact_prefix(s: Seq<AudioStreamInfo>, index: u32, k: int)
    requires
        0 <= k <= s.len(),
        first_audio_fact_with(s.take(k), index) is Some,
    ensures
        first_audio_fact_with(s, index) == first_audio_fact_with(s.take(k), index),
    decreases s.len() - k,
{
    if k < s.len() {
        assert(s.take(k + 1).drop_last() =~= s.take(k));
        lemma_first_audio_fact_prefix(s, index, k + 1);
    } else {
        assert(s.take(k) =~= s);
    }
}

/// The position, among the fresh audio processing facts, of the stream
/// that explicit audio settings apply to: the selected track, or the only
/// audio stream when nothing is selected.
pub open spec fn spec_selected_audio_stream(
    options: Option<TrackConvertOptions>,
    probe: ProbeResult,
) -> Result<int, Seq<char>> {
    match probe.audio_details {
        None => Err("Explicit audio settings require complete fresh audio stream facts"@),
        Some(d) => match spec_selected_track(options, probe) {
            Err(m) => Err(m),
            Ok(None) => if d.streams@.len() != 1 {
                Err("Choose Automatic until an audio track has been selected"@)
            } else {
                Ok(0)
            },
            Ok(Some(t)) => match first_audio_fact_with(d.streams@, t.index) {
                None => Err(
                    "Fresh processing facts for the selected audio track are unavailable; reinspect the source"@,
                ),
                Some(k) => Ok(k),
            },
        },
    }
}

/// The fresh processing facts of the audio stream that explicit audio
/// settings apply to.
#[verifier::loop_isolation(false)]
pub fn selected_audio_stream<'a>(options: &Option<TrackConvertOptions>, probe: &'a ProbeResult) -> (r:
    Result<&'a AudioStreamInfo, GoopError>)
    ensures
        match spec_selected_audio_stream(*options, *probe) {
            Ok(k) => (r matches Ok(x) && probe.audio_details matches Some(d) && 0 <= k
                < d.streams@.len() && *x == d.streams@[k]),
            Err(m) => (r matches Err(e) && is_invalid_with(e, m)),
        },
{
    let details = match &probe.audio_details {
        Some(d) => d,
        None => return Err(
            invalid("Explicit audio settings require complete fresh audio stream facts"),
        ),
    };
    let selected = match selected_track(options, probe) {
        Ok(Some(t)) => t,
        Ok(None) => {
            if details.streams.len() != 1 {
                return Err(invalid("Choose Automatic until an audio track has been selected"));
            }
            return Ok(&details.streams[0]);
        },
        Err(e) => return Err(e),
    };
    let ghost s = details.streams@;
    let mut i: usize = 0;
    while i < details.streams.len()
        invariant
            s == details.streams@,
            i <= s.len(),
            first_audio_fact_with(s.take(i as int), selected.index) is None,
        decreases s.len() - i,
    {
        proof {
            assert(s.take(i + 1).drop_last() =~= s.take(i as int));
        }
        if details.streams[i].index == selected.index {
            proof {
                lemma_first_audio_fact_prefix(s, selected.index, i as int + 1);
            }
            return Ok(&details.streams[i]);
        }
        i = i + 1;
    }
    assert(s.take(s.len() as int) =~= s);
    Err(
        invalid(
            "Fresh processing facts for the selected audio track are unavailable; reinspect the source",
        ),
    )
}

/// Whether a finished selected-track conversion holds exactly the disclosed
/// audio stream and nothing else.
pub open spec fn spec_output_matches_selection(expected: TrackExecutionSummary, actual: ProbeResult) -> Result<
    (),
    Seq<char>,
> {
    match actual.audio_details {
        None => Err("Completed selected-track output did not contain verified audio facts"@),
        Some(d) => if d.streams@.len() != 1 || d.has_non_audio_streams || d.streams@[0].index
            != expected.output_stream_index {
            Err(
                "Completed selected-track output did not contain exactly the disclosed audio stream"@,
            )
        } else {
            Ok(())
        },
    }
}

/// Verifies that a finished selected-track conversion holds exactly the
/// disclosed audio stream.
pub fn validate_output_against_selection(expected: &TrackExecutionSummary, actual: &ProbeResult) -> (r:
    Result<(), GoopError>)
    ensures
        match spec_output_matches_selection(*expected, *actual) {
            Ok(_) => r is Ok,
            Err(m) => (r matches Err(e) && is_invalid_with(e, m)),
        },
{
    let details = match &actual.audio_details {
        Some(d) => d,
        None => return Err(
            invalid("Completed selected-track output did not contain verified audio facts"),
        ),
    };
    if details.streams.len() != 1 || details.has_non_audio_streams || details.streams[0].index
        != expected.output_stream_index {
        return Err(
            invalid(
                "Completed selected-track output did not contain exactly the disclosed audio stream",
            ),
        );
    }
    Ok(())
}

} // verus!
