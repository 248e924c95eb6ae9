//! Stream identity: what a probe reports about each stream of a source,
//! bound to the source file so that a later conversion can prove it acts
//! on the streams the user chose from.
use vstd::prelude::*;
use crate::text::views;

verus! {

/// A text fact of a stream: a value, absent, or reported in a form that
/// could not be read.
#[derive(Debug, Clone, PartialEq, Eq)]
pub enum TrackTextFact {
    Value { value: String },
    Missing,
    Malformed,
}

/// A text fact as a value.
pub enum FactView {
    Value(Seq<char>),
    Missing,
    Malformed,
}

impl View for TrackTextFact {
    type V = FactView;

    open spec fn view(&self) -> FactView {
        match self {
            TrackTextFact::Value { value } => FactView::Value(value@),
            TrackTextFact::Missing => FactView::Missing,
            TrackTextFact::Malformed => FactView::Malformed,
        }
    }
}

impl TrackTextFact {
    /// A copy of this fact.
    pub fn copy(&self) -> (r: TrackTextFact)
        ensures
            r@ == self@,
    {
        match self {
            TrackTextFact::Value { value } => TrackTextFact::Value { value: value.clone() },
            TrackTextFact::Missing => TrackTextFact::Missing,
            TrackTextFact::Malformed => TrackTextFact::Malformed,
        }
    }

    /// Whether two facts are the same.
    pub fn same(&self, other: &TrackTextFact) -> (r: bool)
        ensures
            r == (self@ == other@),
    {
        match (self, other) {
            (TrackTextFact::Value { value: a }, TrackTextFact::Value { value: b }) => {
                let e = crate::text::str_eq(a.as_str(), b.as_str());
                proof {
                    if !e {
                        assert(self@ != other@);
                    }
                }
                e
            },
            (TrackTextFact::Missing, TrackTextFact::Missing) => true,
            (TrackTextFact::Malformed, TrackTextFact::Malformed) => true,
            _ => false,
        }
    }
}

/// The disposition flags of a stream.
#[derive(Debug, Clone, PartialEq, Eq)]
pub struct TrackDisposition {
    pub default: Option<bool>,
    pub forced: Option<bool>,
    pub malformed: bool,
    /// Every other disposition flag, by name.
    pub other: Vec<(String, bool)>,
}

/// The identity of one stream of a source.
#[derive(Debug, Clone, PartialEq, Eq)]
pub struct TrackIdentity {
    pub index: u32,
    pub codec_type: String,
    pub codec_name: TrackTextFact,
    pub container_stream_id: TrackTextFact,
    pub language: TrackTextFact,
    pub title: TrackTextFact,
    pub disposition: TrackDisposition,
}

/// The identity of a stream as values.
pub struct TrackView {
    pub index: u32,
    pub codec_type: Seq<char>,
    pub codec_name: FactView,
    pub container_stream_id: FactView,
    pub language: FactView,
    pub title: FactView,
    pub default: Option<bool>,
    pub forced: Option<bool>,
    pub malformed: bool,
    pub other: Seq<(Seq<char>, bool)>,
}

/// Named flags as values.
pub open spec fn flags_view(v: Seq<(String, bool)>) -> Seq<(Seq<char>, bool)> {
    v.map_values(|p: (String, bool)| (p.0@, p.1))
}

impl View for TrackIdentity {
    type V = TrackView;

    open spec fn view(&self) -> TrackView {
        TrackView {
            index: self.index,
            codec_type: self.codec_type@,
            codec_name: self.codec_name@,
            container_stream_id: self.container_stream_id@,
            language: self.language@,
            title: self.title@,
            default: self.disposition.default,
            forced: self.disposition.forced,
            malformed: self.disposition.malformed,
            other: flags_view(self.disposition.other@),
        }
    }
}

/// The identities of a list of streams.
pub open spec fn tracks_view(v: Seq<TrackIdentity>) -> Seq<TrackView> {
    v.map_values(|t: TrackIdentity| t@)
}

/// A copy of named flags.
fn copy_flags(v: &Vec<(String, bool)>) -> (r: Vec<(String, bool)>)
    ensures
        flags_view(r@) == flags_view(v@),
{
    let mut r: Vec<(String, bool)> = Vec::new();
    let mut i: usize = 0;
    while i < v.len()
        invariant
            i <= v@.len(),
            flags_view(r@) == flags_view(v@).take(i as int),
        decreases v@.len() - i,
    {
        let ghost before = r@;
        r.push((v[i].0.clone(), v[i].1));
        proof {
            assert(flags_view(r@) =~= flags_view(before).push((v@[i as int].0@, v@[i as int].1)));
            assert(flags_view(v@).take(i + 1) =~= flags_view(v@).take(i as int).push(
                (v@[i as int].0@, v@[i as int].1),
            ));
        }
        i = i + 1;
    }
    assert(flags_view(v@).take(v@.len() as int) =~= flags_view(v@));
    r
}

/// Whether two lists of named flags are the same.
fn same_flags(a: &Vec<(String, bool)>, b: &Vec<(String, bool)>) -> (r: bool)
    ensures
        r == (flags_view(a@) == flags_view(b@)),
{
    if a.len() != b.len() {
        proof {
            if flags_view(a@) == flags_view(b@) {
                assert(flags_view(a@).len() == a@.len());
            }
        }
        return false;
    }
    let mut i: usize = 0;
    while i < a.len()
        invariant
            a@.len() == b@.len(),
            i <= a@.len(),
            forall|j: int| 0 <= j < i ==> #[trigger] flags_view(a@)[j] == flags_view(b@)[j],
        decreases a@.len() - i,
    {
        if !(a[i].0 == b[i].0 && a[i].1 == b[i].1) {
            proof {
                assert(flags_view(a@)[i as int] != flags_view(b@)[i as int]);
            }
            return false;
        }
        i = i + 1;
    }
    assert(flags_view(a@) =~= flags_view(b@));
    true
}

impl TrackIdentity {
    /// A copy of this identity.
    pub fn copy(&self) -> (r: TrackIdentity)
        ensures
            r@ == self@,
    {
        TrackIdentity {
            index: self.index,
            codec_type: self.codec_type.clone(),
            codec_name: self.codec_name.copy(),
            container_stream_id: self.container_stream_id.copy(),
            language: self.language.copy(),
            title: self.title.copy(),
            disposition: TrackDisposition {
                default: self.disposition.default,
                forced: self.disposition.forced,
                malformed: self.disposition.malformed,
                other: copy_flags(&self.disposition.other),
            },
        }
    }

    /// Whether two identities are the same.
    pub fn same(&self, other: &TrackIdentity) -> (r: bool)
        ensures
            r == (self@ == other@),
    {
        self.index == other.index && self.codec_type == other.codec_type
            && self.codec_name.same(&other.codec_name) && self.container_stream_id.same(
            &other.container_stream_id,
        ) && self.language.same(&other.language) && self.title.same(&other.title)
            && self.disposition.default == other.disposition.default && self.disposition.forced
            == other.disposition.forced && self.disposition.malformed
            == other.disposition.malformed && same_flags(
            &self.disposition.other,
            &other.disposition.other,
        )
    }
}

/// The complete stream inventory of a source.
#[derive(Debug, Clone, PartialEq, Eq)]
pub struct TrackInventory {
    pub version: u32,
    pub streams: Vec<TrackIdentity>,
}

impl View for TrackInventory {
    type V = (u32, Seq<TrackView>);

    open spec fn view(&self) -> (u32, Seq<TrackView>) {
        (self.version, tracks_view(self.streams@))
    }
}

/// A copy of a list of identities.
pub fn copy_tracks(v: &Vec<TrackIdentity>) -> (r: Vec<TrackIdentity>)
    ensures
        tracks_view(r@) == tracks_view(v@),
{
    let mut r: Vec<TrackIdentity> = Vec::new();
    let mut i: usize = 0;
    while i < v.len()
        invariant
            i <= v@.len(),
            tracks_view(r@) == tracks_view(v@).take(i as int),
        decreases v@.len() - i,
    {
        let ghost before = r@;
        r.push(v[i].copy());
        proof {
            assert(tracks_view(r@) =~= tracks_view(before).push(v@[i as int]@));
            assert(tracks_view(v@).take(i + 1) =~= tracks_view(v@).take(i as int).push(
                v@[i as int]@,
            ));
        }
        i = i + 1;
    }
    assert(tracks_view(v@).take(v@.len() as int) =~= tracks_view(v@));
    r
}

impl TrackInventory {
    /// A copy of this inventory.
    pub fn copy(&self) -> (r: TrackInventory)
        ensures
            r@ == self@,
    {
        TrackInventory { version: self.version, streams: copy_tracks(&self.streams) }
    }

    /// Whether two inventories are the same.
    pub fn same(&self, other: &TrackInventory) -> (r: bool)
        ensures
            r == (self@ == other@),
    {
        if self.version != other.version || self.streams.len() != other.streams.len() {
            proof {
                if self@ == other@ {
                    assert(tracks_view(self.streams@).len() == self.streams@.len());
                }
            }
            return false;
        }
        let mut i: usize = 0;
        while i < self.streams.len()
            invariant
                self.streams@.len() == other.streams@.len(),
                i <= self.streams@.len(),
                forall|j: int|
                    0 <= j < i ==> #[trigger] tracks_view(self.streams@)[j] == tracks_view(
                        other.streams@,
                    )[j],
            decreases self.streams@.len() - i,
        {
            if !self.streams[i].same(&other.streams[i]) {
                proof {
                    assert(tracks_view(self.streams@)[i as int] != tracks_view(
                        other.streams@,
                    )[i as int]);
                }
                return false;
            }
            i = i + 1;
        }
        assert(tracks_view(self.streams@) =~= tracks_view(other.streams@));
        true
    }
}

/// A source file's identity together with its stream inventory.
#[derive(Debug, Clone, PartialEq, Eq)]
pub struct TrackSourceBinding {
    pub version: u32,
    pub canonical_path: String,
    pub size_bytes: String,
    pub modified_unix_ns: String,
    pub inventory: TrackInventory,
}

/// A binding as values.
pub struct BindingView {
    pub version: u32,
    pub canonical_path: Seq<char>,
    pub size_bytes: Seq<char>,
    pub modified_unix_ns: Seq<char>,
    pub inventory: (u32, Seq<TrackView>),
}

impl View for TrackSourceBinding {
    type V = BindingView;

    open spec fn view(&self) -> BindingView {
        BindingView {
            version: self.version,
            canonical_path: self.canonical_path@,
            size_bytes: self.size_bytes@,
            modified_unix_ns: self.modified_unix_ns@,
            inventory: self.inventory@,
        }
    }
}

impl TrackSourceBinding {
    /// A copy of this binding.
    pub fn copy(&self) -> (r: TrackSourceBinding)
        ensures
            r@ == self@,
    {
        TrackSourceBinding {
            version: self.version,
            canonical_path: self.canonical_path.clone(),
            size_bytes: self.size_bytes.clone(),
            modified_unix_ns: self.modified_unix_ns.clone(),
            inventory: self.inventory.copy(),
        }
    }

    /// Whether two bindings are the same.
    pub fn same(&self, other: &TrackSourceBinding) -> (r: bool)
        ensures
            r == (self@ == other@),
    {
        self.version == other.version && self.canonical_path == other.canonical_path
            && self.size_bytes == other.size_bytes && self.modified_unix_ns
            == other.modified_unix_ns && self.inventory.same(&other.inventory)
    }
}

/// Which streams of a family a conversion keeps.
#[derive(Debug, Clone, PartialEq, Eq)]
pub enum TrackStreamPolicy {
    KeepAll,
    Choose { stream_indices: Vec<u32> },
    KeepNone,
}

/// A policy as values.
pub enum PolicyView {
    KeepAll,
    Choose(Seq<u32>),
    KeepNone,
}

impl View for TrackStreamPolicy {
    type V = PolicyView;

    open spec fn view(&self) -> PolicyView {
        match self {
            TrackStreamPolicy::KeepAll => PolicyView::KeepAll,
            TrackStreamPolicy::Choose { stream_indices } => PolicyView::Choose(stream_indices@),
            TrackStreamPolicy::KeepNone => PolicyView::KeepNone,
        }
    }
}

impl TrackStreamPolicy {
    /// A copy of this policy.
    pub fn copy(&self) -> (r: TrackStreamPolicy)
        ensures
            r@ == self@,
    {
        match self {
            TrackStreamPolicy::KeepAll => TrackStreamPolicy::KeepAll,
            TrackStreamPolicy::Choose { stream_indices } => {
                let mut v: Vec<u32> = Vec::new();
                let mut i: usize = 0;
                while i < stream_indices.len()
                    invariant
                        i <= stream_indices@.len(),
                        v@ == stream_indices@.take(i as int),
                    decreases stream_indices@.len() - i,
                {
                    v.push(stream_indices[i]);
                    assert(stream_indices@.take(i + 1) =~= stream_indices@.take(i as int).push(
                        stream_indices@[i as int],
                    ));
                    i = i + 1;
                }
                assert(stream_indices@.take(stream_indices@.len() as int) =~= stream_indices@);
                TrackStreamPolicy::Choose { stream_indices: v }
            },
            TrackStreamPolicy::KeepNone => TrackStreamPolicy::KeepNone,
        }
    }
}

/// Whether a policy keeps the stream with source index `index`.
pub open spec fn spec_policy_retains(p: TrackStreamPolicy, index: u32) -> bool {
    match p@ {
        PolicyView::KeepAll => true,
        PolicyView::Choose(s) => s.contains(index),
        PolicyView::KeepNone => false,
    }
}

/// Whether a policy keeps the stream with source index `index`.
#[verifier::loop_isolation(false)]
pub fn policy_retains(policy: &TrackStreamPolicy, index: u32) -> (r: bool)
    ensures
        r == spec_policy_retains(*policy, index),
{
    match policy {
        TrackStreamPolicy::KeepAll => true,
        TrackStreamPolicy::Choose { stream_indices } => {
            let mut i: usize = 0;
            while i < stream_indices.len()
                invariant
                    i <= stream_indices@.len(),
                    forall|j: int| 0 <= j < i ==> stream_indices@[j] != index,
                decreases stream_indices@.len() - i,
            {
                if stream_indices[i] == index {
                    assert(stream_indices@[i as int] == index);
                    assert(stream_indices@.contains(index));
                    return true;
                }
                i = i + 1;
            }
            false
        },
        TrackStreamPolicy::KeepNone => false,
    }
}

/// The explicit stream selection of a conversion, bound to its source.
#[derive(Debug, Clone, PartialEq, Eq)]
pub enum TrackConvertOptions {
    Audio { source: TrackSourceBinding, stream_index: u32 },
    Video { source: TrackSourceBinding, audio: TrackStreamPolicy, subtitles: TrackStreamPolicy },
}

/// Explicit stream selection as values.
pub enum OptionsView {
    Audio(BindingView, u32),
    Video(BindingView, PolicyView, PolicyView),
}

impl View for TrackConvertOptions {
    type V = OptionsView;

    open spec fn view(&self) -> OptionsView {
        match self {
            TrackConvertOptions::Audio { source, stream_index } => OptionsView::Audio(
                source@,
                *stream_index,
            ),
            TrackConvertOptions::Video { source, audio, subtitles } => OptionsView::Video(
                source@,
                audio@,
                subtitles@,
            ),
        }
    }
}

impl TrackConvertOptions {
    /// A copy of this selection.
    pub fn copy(&self) -> (r: TrackConvertOptions)
        ensures
            r@ == self@,
    {
        match self {
            TrackConvertOptions::Audio { source, stream_index } => TrackConvertOptions::Audio {
                source: source.copy(),
                stream_index: *stream_index,
            },
            TrackConvertOptions::Video { source, audio, subtitles } => TrackConvertOptions::Video {
                source: source.copy(),
                audio: audio.copy(),
                subtitles: subtitles.copy(),
            },
        }
    }
}

/// The value of a text fact, when it has one.
pub open spec fn spec_text_value(f: FactView) -> Option<Seq<char>> {
    match f {
        FactView::Value(v) => Some(v),
        _ => None,
    }
}

/// The codec a fact names: a nonempty value.
pub open spec fn spec_codec_value(f: FactView) -> Option<Seq<char>> {
    match f {
        FactView::Value(v) => if v.len() > 0 {
            Some(v)
        } else {
            None
        },
        _ => None,
    }
}

/// The value of a text fact, when it has one.
pub fn text_value(fact: &TrackTextFact) -> (r: Option<&str>)
    ensures
        crate::subtitle::opt_view(r) == spec_text_value(fact@),
{
    match fact {
        TrackTextFact::Value { value } => Some(value.as_str()),
        _ => None,
    }
}

/// The codec a fact names, when it is a nonempty value.
pub fn codec_value_from_fact(fact: &TrackTextFact) -> (r: Option<&str>)
    ensures
        crate::subtitle::opt_view(r) == spec_codec_value(fact@),
{
    match fact {
        TrackTextFact::Value { value } => {
            if value.as_str().unicode_len() > 0 {
                Some(value.as_str())
            } else {
                None
            }
        },
        _ => None,
    }
}

/// Whether any identity fact of a stream is malformed.
pub open spec fn spec_track_malformed(t: TrackView) -> bool {
    t.codec_name is Malformed || t.container_stream_id is Malformed || t.language is Malformed
        || t.title is Malformed || t.malformed
}

/// Whether any stream of an inventory has a malformed identity fact.
pub open spec fn spec_inventory_has_malformed_identity(s: Seq<TrackView>) -> bool {
    exists|i: int| 0 <= i < s.len() && spec_track_malformed(#[trigger] s[i])
}

/// Whether any stream of an inventory has a malformed identity fact.
pub fn inventory_has_malformed_identity(inventory: &TrackInventory) -> (r: bool)
    ensures
        r == spec_inventory_has_malformed_identity(inventory@.1),
{
    let mut i: usize = 0;
    while i < inventory.streams.len()
        invariant
            i <= inventory.streams@.len(),
            forall|j: int|
                0 <= j < i ==> !spec_track_malformed(#[trigger] tracks_view(inventory.streams@)[j]),
        decreases inventory.streams@.len() - i,
    {
        let t = &inventory.streams[i];
        let bad = match t.codec_name {
            TrackTextFact::Malformed => true,
            _ => false,
        } || match t.container_stream_id {
            TrackTextFact::Malformed => true,
            _ => false,
        } || match t.language {
            TrackTextFact::Malformed => true,
            _ => false,
        } || match t.title {
            TrackTextFact::Malformed => true,
            _ => false,
        } || t.disposition.malformed;
        if bad {
            assert(spec_track_malformed(tracks_view(inventory.streams@)[i as int]));
            return true;
        }
        i = i + 1;
    }
    false
}

} // verus!
