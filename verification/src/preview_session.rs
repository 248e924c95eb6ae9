//! The bookkeeping of the sample-preview service: which preview session is
//! live, which request may publish its sample, which published outputs
//! still await removal, and which admission checks share one inspection.
//!
//! Every change of this state is a function here. What the service does
//! around it (timers, worker tasks, file removal) hands its results in as
//! plain values, and the cancellations a change calls for are handed back
//! as values too.
use vstd::prelude::*;
use crate::error::{invalid, is_invalid_with, GoopError};
use crate::media::opt_string;
use crate::preview::{spec_first_error, spec_retained, PublishedArtifacts, RemovalOutcome};
use crate::subtitle::opt_view;
use crate::text::{owned, str_eq};

verus! {

/// The request whose sample the service currently expects, and the
/// session epoch it was admitted in.
#[derive(Debug, Clone, PartialEq, Eq)]
pub struct ActiveRequest {
    pub request_id: String,
    pub epoch: u64,
}

/// A request waiting on a shared admission check.
#[derive(Debug, Clone, PartialEq, Eq)]
pub struct EligibilityWaiter {
    pub id: u64,
    pub request_id: String,
}

/// The admission check in flight: its request key, its epoch and the
/// requests waiting on it.
#[derive(Debug, Clone, PartialEq, Eq)]
pub struct ActiveEligibility {
    pub key: Vec<u8>,
    pub epoch: u64,
    pub waiters: Vec<EligibilityWaiter>,
}

/// Published outputs of an ended session whose removal has not succeeded
/// yet.
#[derive(Debug, Clone, PartialEq, Eq)]
pub struct PendingSessionCleanup {
    pub session_id: Option<String>,
    pub artifacts: Vec<PublishedArtifacts>,
}

/// The state of the preview service.
#[derive(Debug, Clone, PartialEq, Eq)]
pub struct PreviewState {
    pub epoch: u64,
    pub eligibility_epoch: u64,
    pub session_id: Option<String>,
    pub active: Option<ActiveRequest>,
    pub eligibility: Option<ActiveEligibility>,
    pub completed: Option<PublishedArtifacts>,
    pub retired: Option<PublishedArtifacts>,
    pub pending_cleanup: Option<PendingSessionCleanup>,
}

/// A cancellation that a change of state calls for: of a request's work,
/// of an admission check's shared work, or of one waiter on it.
#[derive(Debug, Clone, PartialEq, Eq)]
pub enum Cancellation {
    Request { request_id: String, epoch: u64 },
    FlightWork { epoch: u64 },
    Waiter { id: u64 },
}

/// An admission check as values.
#[verifier::ext_equal]
pub struct FlightView {
    pub key: Seq<u8>,
    pub epoch: u64,
    pub waiters: Seq<EligibilityWaiter>,
}

/// Pending cleanup as values.
#[verifier::ext_equal]
pub struct PendingView {
    pub session_id: Option<String>,
    pub artifacts: Seq<PublishedArtifacts>,
}

/// The service state as values.
#[verifier::ext_equal]
pub struct StateView {
    pub epoch: u64,
    pub eligibility_epoch: u64,
    pub session_id: Option<String>,
    pub active: Option<ActiveRequest>,
    pub eligibility: Option<FlightView>,
    pub completed: Option<PublishedArtifacts>,
    pub retired: Option<PublishedArtifacts>,
    pub pending_cleanup: Option<PendingView>,
}

impl View for ActiveEligibility {
    type V = FlightView;

    open spec fn view(&self) -> FlightView {
        FlightView { key: self.key@, epoch: self.epoch, waiters: self.waiters@ }
    }
}

impl View for PendingSessionCleanup {
    type V = PendingView;

    open spec fn view(&self) -> PendingView {
        PendingView { session_id: self.session_id, artifacts: self.artifacts@ }
    }
}

impl View for PreviewState {
    type V = StateView;

    open spec fn view(&self) -> StateView {
        StateView {
            epoch: self.epoch,
            eligibility_epoch: self.eligibility_epoch,
            session_id: self.session_id,
            active: self.active,
            eligibility: match self.eligibility {
                Some(e) => Some(e@),
                None => None,
            },
            completed: self.completed,
            retired: self.retired,
            pending_cleanup: match self.pending_cleanup {
                Some(p) => Some(p@),
                None => None,
            },
        }
    }
}

/// The state of a service that has done nothing yet.
pub open spec fn spec_initial() -> StateView {
    StateView {
        epoch: 0,
        eligibility_epoch: 0,
        session_id: None,
        active: None,
        eligibility: None,
        completed: None,
        retired: None,
        pending_cleanup: None,
    }
}

impl PreviewState {
    /// The state of a service that has done nothing yet.
    pub fn new() -> (s: PreviewState)
        ensures
            s@ == spec_initial(),
    {
        PreviewState {
            epoch: 0,
            eligibility_epoch: 0,
            session_id: None,
            active: None,
            eligibility: None,
            completed: None,
            retired: None,
            pending_cleanup: None,
        }
    }
}

impl Default for PreviewState {
    fn default() -> (s: PreviewState)
        ensures
            s@ == spec_initial(),
    {
        PreviewState::new()
    }
}

// ---------------------------------------------------------------------------
// Sessions and epochs
// ---------------------------------------------------------------------------

/// Whether a request's session (or the absence of one) is the live one.
pub open spec fn spec_session_matches(s: StateView, session: Option<Seq<char>>) -> bool {
    opt_string(s.session_id) == session
}

/// Whether a request captured in `epoch` for `session` is still in the
/// live session's current epoch.
pub open spec fn spec_epoch_context_is_current(
    s: StateView,
    session: Option<Seq<char>>,
    epoch: u64,
) -> bool {
    spec_session_matches(s, session) && s.epoch == epoch
}

/// Whether the request `request_id` captured in `epoch` for `session` may
/// still publish its sample.
pub open spec fn spec_publication_is_current(
    s: StateView,
    request_id: Seq<char>,
    session: Option<Seq<char>>,
    epoch: u64,
) -> bool {
    &&& s.active matches Some(a) && a.request_id@ == request_id && a.epoch == epoch
    &&& spec_epoch_context_is_current(s, session, epoch)
}

fn session_matches(state: &PreviewState, session: Option<&str>) -> (r: bool)
    ensures
        r == spec_session_matches(state@, opt_view(session)),
{
    match (session, &state.session_id) {
        (Some(id), Some(live)) => str_eq(live.as_str(), id),
        (None, None) => true,
        _ => false,
    }
}

/// Whether a request captured in `epoch` for `session` is still current.
pub fn epoch_context_is_current(state: &PreviewState, session: Option<&str>, epoch: u64) -> (r:
    bool)
    ensures
        r == spec_epoch_context_is_current(state@, opt_view(session), epoch),
{
    session_matches(state, session) && state.epoch == epoch
}

/// Whether the request `request_id` captured in `epoch` for `session` may
/// still publish its sample.
pub fn publication_is_current(
    state: &PreviewState,
    request_id: &str,
    session: Option<&str>,
    epoch: u64,
) -> (r: bool)
    ensures
        r == spec_publication_is_current(state@, request_id@, opt_view(session), epoch),
{
    let active_matches = match &state.active {
        Some(a) => str_eq(a.request_id.as_str(), request_id) && a.epoch == epoch,
        None => false,
    };
    active_matches && epoch_context_is_current(state, session, epoch)
}

/// The refusal of a request whose session is no longer live.
pub open spec fn is_session_gone(e: GoopError) -> bool {
    e matches GoopError::PreviewUnavailable(m) && m@ == "Preview session is no longer active."@
}

fn session_gone() -> (e: GoopError)
    ensures
        is_session_gone(e),
{
    GoopError::PreviewUnavailable(owned("Preview session is no longer active."))
}

/// Whether a requested session id is absent or in canonical form.
pub open spec fn spec_session_well_formed(session: Option<Seq<char>>) -> bool {
    session matches Some(id) ==> spec_is_canonical_session_id(id)
}

/// The epoch a new request for `session` is admitted in: the current one,
/// when `session` is the live session; refused for a malformed session id.
pub fn session_epoch(state: &PreviewState, session: Option<&str>) -> (r: Result<u64, GoopError>)
    ensures
        !spec_session_well_formed(opt_view(session)) ==> (r matches Err(e) && is_invalid_with(
            e,
            "Invalid preview session identity"@,
        )),
        spec_session_well_formed(opt_view(session)) && spec_session_matches(
            state@,
            opt_view(session),
        ) ==> r == Ok::<u64, GoopError>(state.epoch),
        spec_session_well_formed(opt_view(session)) && !spec_session_matches(
            state@,
            opt_view(session),
        ) ==> (r matches Err(e) && is_session_gone(e)),
{
    match session {
        Some(id) => {
            if !is_canonical_preview_session_id(id) {
                return Err(invalid("Invalid preview session identity"));
            }
        },
        None => {},
    }
    if session_matches(state, session) {
        Ok(state.epoch)
    } else {
        Err(session_gone())
    }
}

/// The cancellation of an active request, if there is one.
pub open spec fn request_cancellations(a: Option<ActiveRequest>) -> Seq<Cancellation> {
    match a {
        Some(r) => seq![Cancellation::Request { request_id: r.request_id, epoch: r.epoch }],
        None => Seq::empty(),
    }
}

/// The cancellations that abandon an admission check: its shared work,
/// then each waiter in order.
pub open spec fn flight_cancellations(f: Option<FlightView>) -> Seq<Cancellation> {
    match f {
        Some(x) => seq![Cancellation::FlightWork { epoch: x.epoch }] + x.waiters.map_values(
            |w: EligibilityWaiter| Cancellation::Waiter { id: w.id },
        ),
        None => Seq::empty(),
    }
}

/// The state after `request_id` is admitted in `epoch`: it becomes the
/// active request and any admission check in flight is dropped.
pub open spec fn spec_registered(s: StateView, request_id: String, epoch: u64) -> StateView {
    StateView {
        active: Some(ActiveRequest { request_id, epoch }),
        eligibility: None,
        ..s
    }
}

fn push_request_cancellation(out: &mut Vec<Cancellation>, a: &Option<ActiveRequest>)
    ensures
        final(out)@ == old(out)@ + request_cancellations(*a),
{
    match a {
        Some(r) => {
            out.push(Cancellation::Request { request_id: r.request_id.clone(), epoch: r.epoch });
        },
        None => {},
    }
    assert(out@ =~= old(out)@ + request_cancellations(*a));
}

fn push_flight_cancellations(out: &mut Vec<Cancellation>, f: &Option<ActiveEligibility>)
    ensures
        final(out)@ == old(out)@ + flight_cancellations(
            match *f {
                Some(e) => Some(e@),
                None => None,
            },
        ),
{
    match f {
        Some(e) => {
            let ghost start = out@;
            out.push(Cancellation::FlightWork { epoch: e.epoch });
            let ghost ws = e.waiters@.map_values(
                |w: EligibilityWaiter| Cancellation::Waiter { id: w.id },
            );
            let mut i: usize = 0;
            while i < e.waiters.len()
                invariant
                    i <= e.waiters@.len(),
                    ws == e.waiters@.map_values(
                        |w: EligibilityWaiter| Cancellation::Waiter { id: w.id },
                    ),
                    out@ == start + seq![Cancellation::FlightWork { epoch: e.epoch }] + ws.take(
                        i as int,
                    ),
                decreases e.waiters@.len() - i,
            {
                out.push(Cancellation::Waiter { id: e.waiters[i].id });
                assert(ws.take(i + 1) =~= ws.take(i as int).push(ws[i as int]));
                i = i + 1;
            }
            assert(ws.take(i as int) =~= ws);
        },
        None => {
            assert(out@ =~= old(out)@ + Seq::<Cancellation>::empty());
        },
    }
}

/// Admits `request_id`, captured in `epoch` for `session`, as the request
/// whose sample may be published: refused when the session or epoch moved
/// on. The previously active request and any admission check in flight
/// are cancelled.
pub fn register_request(
    state: &mut PreviewState,
    request_id: String,
    session: Option<&str>,
    epoch: u64,
) -> (r: Result<Vec<Cancellation>, GoopError>)
    ensures
        !spec_epoch_context_is_current(old(state)@, opt_view(session), epoch) ==> (r matches Err(e)
            && is_session_gone(e) && final(state)@ == old(state)@),
        spec_epoch_context_is_current(old(state)@, opt_view(session), epoch) ==> (r matches Ok(c)
            && final(state)@ == spec_registered(old(state)@, request_id, epoch) && c@
            == request_cancellations(old(state)@.active) + flight_cancellations(
            old(state)@.eligibility,
        )),
{
    if !epoch_context_is_current(state, session, epoch) {
        return Err(session_gone());
    }
    let mut cancellations: Vec<Cancellation> = Vec::new();
    push_request_cancellation(&mut cancellations, &state.active);
    push_flight_cancellations(&mut cancellations, &state.eligibility);
    assert(cancellations@ =~= request_cancellations(old(state)@.active) + flight_cancellations(
        old(state)@.eligibility,
    ));
    state.active = Some(ActiveRequest { request_id, epoch });
    state.eligibility = None;
    Ok(cancellations)
}

/// The outputs an invalidation takes out of the state: the completed
/// sample, then the retired one.
pub open spec fn spec_invalidated_artifacts(s: StateView) -> Seq<PublishedArtifacts> {
    (match s.completed {
        Some(a) => seq![a],
        None => Seq::empty(),
    }) + (match s.retired {
        Some(a) => seq![a],
        None => Seq::empty(),
    })
}

/// The state after the current generation is invalidated: a new epoch, no
/// active request and no published outputs.
pub open spec fn spec_invalidated(s: StateView) -> StateView {
    StateView { epoch: (s.epoch + 1) as u64, active: None, completed: None, retired: None, ..s }
}

/// Starts a new epoch: the active request is cancelled and the published
/// outputs are handed back for removal.
pub fn invalidate_generation(state: &mut PreviewState) -> (r: (
    Vec<PublishedArtifacts>,
    Vec<Cancellation>,
))
    requires
        old(state).epoch < u64::MAX,
    ensures
        final(state)@ == spec_invalidated(old(state)@),
        r.0@ == spec_invalidated_artifacts(old(state)@),
        r.1@ == request_cancellations(old(state)@.active),
{
    state.epoch = state.epoch + 1;
    let mut cancellations: Vec<Cancellation> = Vec::new();
    push_request_cancellation(&mut cancellations, &state.active);
    assert(cancellations@ =~= request_cancellations(old(state)@.active));
    state.active = None;
    let mut artifacts: Vec<PublishedArtifacts> = Vec::new();
    let completed = state.completed.take();
    let retired = state.retired.take();
    match completed {
        Some(a) => artifacts.push(a),
        None => {},
    }
    match retired {
        Some(a) => artifacts.push(a),
        None => {},
    }
    assert(artifacts@ =~= spec_invalidated_artifacts(old(state)@));
    (artifacts, cancellations)
}

// ---------------------------------------------------------------------------
// Removal of published outputs
// ---------------------------------------------------------------------------

/// Whether the pending cleanup is due for a retry on behalf of `session`
/// (`None`: on behalf of any session).
pub open spec fn spec_pending_due(s: StateView, session: Option<Seq<char>>) -> bool {
    s.pending_cleanup matches Some(p) && (session is None || opt_string(p.session_id) == session)
}

/// The outputs whose removal a cleanup retry on behalf of `session` must
/// attempt, when one is due.
pub fn pending_to_retry<'a>(state: &'a PreviewState, session: Option<&str>) -> (r: Option<
    &'a Vec<PublishedArtifacts>,
>)
    ensures
        spec_pending_due(state@, opt_view(session)) ==> (r matches Some(v)
            && state.pending_cleanup matches Some(p) && v@ == p.artifacts@),
        !spec_pending_due(state@, opt_view(session)) ==> r is None,
{
    match &state.pending_cleanup {
        Some(p) => {
            let due = match (session, &p.session_id) {
                (None, _) => true,
                (Some(id), Some(owner)) => str_eq(owner.as_str(), id),
                (Some(_), None) => false,
            };
            if due {
                Some(&p.artifacts)
            } else {
                None
            }
        },
        None => None,
    }
}

/// The state after a cleanup retry: the outputs whose removal failed stay
/// pending, in order; nothing stays pending once all are gone.
pub open spec fn spec_settled(s: StateView, outcomes: Seq<RemovalOutcome>) -> StateView {
    let p = s.pending_cleanup->0;
    let kept = spec_retained(p.artifacts, outcomes);
    StateView {
        pending_cleanup: if kept.len() == 0 {
            None
        } else {
            Some(PendingView { session_id: p.session_id, artifacts: kept })
        },
        ..s
    }
}

/// Whether `r` reports the first failed removal among `outcomes`, or
/// success when none failed.
pub open spec fn reports_first_failure(r: Result<(), GoopError>, outcomes: Seq<RemovalOutcome>) -> bool {
    match spec_first_error(outcomes) {
        None => r is Ok,
        Some(m) => r matches Err(GoopError::Io(x)) && x@ == m,
    }
}

/// Settles a cleanup retry: `outcomes[i]` is what removing the `i`-th
/// pending output came to.
pub fn settle_pending_cleanup(state: &mut PreviewState, outcomes: &Vec<RemovalOutcome>) -> (r:
    Result<(), GoopError>)
    requires
        old(state).pending_cleanup matches Some(p) && outcomes@.len() == p.artifacts@.len(),
    ensures
        final(state)@ == spec_settled(old(state)@, outcomes@),
        reports_first_failure(r, outcomes@),
{
    let pending = state.pending_cleanup.take();
    let p = match pending {
        Some(p) => p,
        None => return Ok(()),
    };
    let PendingSessionCleanup { session_id, artifacts } = p;
    let (retained, first_error) = crate::preview::remove_artifacts(artifacts, outcomes);
    if retained.len() > 0 {
        state.pending_cleanup = Some(PendingSessionCleanup { session_id, artifacts: retained });
    }
    match first_error {
        Some(m) => Err(GoopError::Io(m)),
        None => Ok(()),
    }
}

/// Whether `slot` holds the output published for `request_id`.
pub fn published_for(slot: &Option<PublishedArtifacts>, request_id: &str) -> (r: bool)
    ensures
        r == (slot matches Some(a) && a.request_id@ == request_id@),
{
    match slot {
        Some(a) => str_eq(a.request_id.as_str(), request_id),
        None => false,
    }
}

/// Settles the removal of the output in `slot`: gone (or already missing)
/// empties the slot; a failure keeps it for later and is reported.
pub fn settle_slot(slot: &mut Option<PublishedArtifacts>, outcome: &RemovalOutcome) -> (r: Result<
    (),
    GoopError,
>)
    requires
        *old(slot) is Some,
    ensures
        outcome matches RemovalOutcome::Failed(m) ==> (*final(slot) == *old(slot) && (r matches Err(
            GoopError::Io(x),
        ) && x@ == m@)),
        !(outcome is Failed) ==> (*final(slot) is None && r is Ok),
{
    match outcome {
        RemovalOutcome::Failed(m) => Err(GoopError::Io(m.clone())),
        _ => {
            *slot = None;
            Ok(())
        },
    }
}

// ---------------------------------------------------------------------------
// Beginning and releasing sessions
// ---------------------------------------------------------------------------

/// Whether a character is a lowercase hexadecimal digit.
pub open spec fn is_lower_hex(c: char) -> bool {
    ('0' <= c && c <= '9') || ('a' <= c && c <= 'f')
}

/// Whether `s` is a session id in canonical form: a lowercase hyphenated
/// UUID, `8-4-4-4-12` hexadecimal digits.
pub open spec fn spec_is_canonical_session_id(s: Seq<char>) -> bool {
    &&& s.len() == 36
    &&& forall|i: int|
        0 <= i < 36 ==> if i == 8 || i == 13 || i == 18 || i == 23 {
            #[trigger] s[i] == '-'
        } else {
            is_lower_hex(s[i])
        }
}

/// Whether `id` is a session id in canonical form.
pub fn is_canonical_preview_session_id(id: &str) -> (r: bool)
    ensures
        r == spec_is_canonical_session_id(id@),
{
    let n = id.unicode_len();
    if n != 36 {
        return false;
    }
    let mut i: usize = 0;
    while i < 36
        invariant
            n == 36,
            id@.len() == 36,
            i <= 36,
            forall|j: int|
                0 <= j < i ==> if j == 8 || j == 13 || j == 18 || j == 23 {
                    #[trigger] id@[j] == '-'
                } else {
                    is_lower_hex(id@[j])
                },
        decreases 36 - i,
    {
        let c = id.get_char(i);
        let ok = if i == 8 || i == 13 || i == 18 || i == 23 {
            c == '-'
        } else {
            ('0' <= c && c <= '9') || ('a' <= c && c <= 'f')
        };
        if !ok {
            return false;
        }
        i = i + 1;
    }
    true
}

/// Whether a freshly drawn session id differs from the live one.
pub fn is_fresh_session_id(state: &PreviewState, candidate: &str) -> (r: bool)
    ensures
        r == !(opt_string(state.session_id) == Some(candidate@)),
{
    match &state.session_id {
        Some(live) => !str_eq(live.as_str(), candidate),
        None => true,
    }
}

/// The state after the live session (if any) ends so that a new one can
/// begin: a new epoch, no session, and the ended session's outputs pending
/// removal.
pub open spec fn spec_session_ended(s: StateView, owner: Option<String>) -> StateView {
    let t = spec_invalidated(s);
    let artifacts = spec_invalidated_artifacts(s);
    StateView {
        session_id: None,
        pending_cleanup: if artifacts.len() > 0 {
            Some(PendingView { session_id: owner, artifacts })
        } else {
            t.pending_cleanup
        },
        ..t
    }
}

fn end_generation(state: &mut PreviewState, owner: Option<String>) -> (r: Vec<Cancellation>)
    requires
        old(state).epoch < u64::MAX,
    ensures
        final(state)@ == spec_session_ended(old(state)@, owner),
        r@ == request_cancellations(old(state)@.active),
{
    state.session_id = None;
    let (artifacts, cancellations) = invalidate_generation(state);
    if artifacts.len() > 0 {
        state.pending_cleanup = Some(PendingSessionCleanup { session_id: owner, artifacts });
    }
    cancellations
}

/// Ends the live session so that a new one can begin; its outputs become
/// pending removal under its id. Nothing may already be pending.
pub fn end_session_for_new(state: &mut PreviewState) -> (r: Vec<Cancellation>)
    requires
        old(state).epoch < u64::MAX,
        old(state).pending_cleanup is None,
    ensures
        final(state)@ == spec_session_ended(old(state)@, old(state).session_id),
        r@ == request_cancellations(old(state)@.active),
{
    let owner = state.session_id.take();
    end_generation(state, owner)
}

/// Makes `session_id` the live session. Nothing may be pending removal.
pub fn activate_session(state: &mut PreviewState, session_id: String)
    requires
        old(state).pending_cleanup is None,
    ensures
        final(state)@ == (StateView { session_id: Some(session_id), ..old(state)@ }),
{
    state.session_id = Some(session_id);
}

/// The state after a release of `session`: unchanged while its cleanup is
/// still pending or when it is not the live session; otherwise the session
/// ends and its outputs become pending removal under its id.
pub open spec fn spec_released(s: StateView, session: Seq<char>) -> StateView {
    if spec_pending_due(s, Some(session)) || !(opt_string(s.session_id) == Some(session)) {
        s
    } else {
        spec_session_ended(s, s.session_id)
    }
}

/// Releases `session`: refused unless the id is in canonical form. A
/// cleanup retry on its behalf follows whenever one is due afterwards.
pub fn release_session(state: &mut PreviewState, session: &str) -> (r: Result<
    Vec<Cancellation>,
    GoopError,
>)
    requires
        old(state).epoch < u64::MAX,
    ensures
        !spec_is_canonical_session_id(session@) ==> (final(state)@ == old(state)@ && (r matches Err(
            e,
        ) && is_invalid_with(e, "Invalid preview session identity"@))),
        spec_is_canonical_session_id(session@) ==> (final(state)@ == spec_released(
            old(state)@,
            session@,
        ) && (r matches Ok(c) && c@ == (if !spec_pending_due(old(state)@, Some(session@))
            && opt_string(old(state).session_id) == Some(session@) {
            request_cancellations(old(state)@.active)
        } else {
            Seq::empty()
        }))),
{
    if !is_canonical_preview_session_id(session) {
        return Err(invalid("Invalid preview session identity"));
    }
    if pending_to_retry(state, Some(session)).is_some() {
        return Ok(Vec::new());
    }
    let live = match &state.session_id {
        Some(s) => str_eq(s.as_str(), session),
        None => false,
    };
    if !live {
        return Ok(Vec::new());
    }
    let owner = state.session_id.take();
    Ok(end_generation(state, owner))
}

// ---------------------------------------------------------------------------
// Cancelling a request
// ---------------------------------------------------------------------------

/// The waiters that do not belong to `request_id`, in order.
pub open spec fn waiters_kept(ws: Seq<EligibilityWaiter>, request_id: Seq<char>) -> Seq<
    EligibilityWaiter,
>
    decreases ws.len(),
{
    if ws.len() == 0 {
        Seq::empty()
    } else {
        let rest = waiters_kept(ws.drop_last(), request_id);
        if ws.last().request_id@ == request_id {
            rest
        } else {
            rest.push(ws.last())
        }
    }
}

/// The cancellations of the waiters that belong to `request_id`, in order.
pub open spec fn waiters_cancelled(ws: Seq<EligibilityWaiter>, request_id: Seq<char>) -> Seq<
    Cancellation,
>
    decreases ws.len(),
{
    if ws.len() == 0 {
        Seq::empty()
    } else {
        let rest = waiters_cancelled(ws.drop_last(), request_id);
        if ws.last().request_id@ == request_id {
            rest.push(Cancellation::Waiter { id: ws.last().id })
        } else {
            rest
        }
    }
}

/// The state after `request_id` is cancelled: its waiters leave the
/// admission check in flight, which is dropped once nobody waits on it.
/// The active request stays until it notices its cancellation.
pub open spec fn spec_cancelled(s: StateView, request_id: Seq<char>) -> StateView {
    StateView {
        eligibility: match s.eligibility {
            Some(f) => {
                let kept = waiters_kept(f.waiters, request_id);
                if kept.len() == 0 {
                    None
                } else {
                    Some(FlightView { waiters: kept, ..f })
                }
            },
            None => None,
        },
        ..s
    }
}

/// The cancellations that cancelling `request_id` calls for: its active
/// work, its waiters, and the shared work once nobody waits on it.
pub open spec fn spec_cancel_cancellations(s: StateView, request_id: Seq<char>) -> Seq<Cancellation> {
    (match s.active {
        Some(a) => if a.request_id@ == request_id {
            request_cancellations(s.active)
        } else {
            Seq::empty()
        },
        None => Seq::empty(),
    }) + match s.eligibility {
        Some(f) => waiters_cancelled(f.waiters, request_id) + if waiters_kept(
            f.waiters,
            request_id,
        ).len() == 0 {
            seq![Cancellation::FlightWork { epoch: f.epoch }]
        } else {
            Seq::empty()
        },
        None => Seq::empty(),
    }
}

fn split_waiters(ws: Vec<EligibilityWaiter>, request_id: &str) -> (r: (
    Vec<EligibilityWaiter>,
    Vec<Cancellation>,
))
    ensures
        r.0@ == waiters_kept(ws@, request_id@),
        r.1@ == waiters_cancelled(ws@, request_id@),
{
    let ghost all = ws@;
    let n: usize = ws.len();
    let mut kept: Vec<EligibilityWaiter> = Vec::new();
    let mut cancelled: Vec<Cancellation> = Vec::new();
    let mut i: usize = 0;
    for w in it: ws.into_iter()
        invariant
            n == all.len(),
            it.seq() == all,
            i == it.index(),
            i <= all.len(),
            kept@ == waiters_kept(all.take(i as int), request_id@),
            cancelled@ == waiters_cancelled(all.take(i as int), request_id@),
    {
        proof {
            assert(all.take(i + 1).drop_last() =~= all.take(i as int));
        }
        if str_eq(w.request_id.as_str(), request_id) {
            cancelled.push(Cancellation::Waiter { id: w.id });
        } else {
            kept.push(w);
        }
        i = i + 1;
    }
    assert(all.take(all.len() as int) =~= all);
    (kept, cancelled)
}

/// Cancels the work of `request_id`: its active request and its waits on
/// the admission check in flight. Its published outputs are removed
/// separately, on a best-effort basis.
pub fn cancel_request(state: &mut PreviewState, request_id: &str) -> (r: Vec<Cancellation>)
    ensures
        final(state)@ == spec_cancelled(old(state)@, request_id@),
        r@ == spec_cancel_cancellations(old(state)@, request_id@),
{
    let mut cancellations: Vec<Cancellation> = Vec::new();
    match &state.active {
        Some(a) => {
            if str_eq(a.request_id.as_str(), request_id) {
                push_request_cancellation(&mut cancellations, &state.active);
            }
        },
        None => {},
    }
    let flight = state.eligibility.take();
    match flight {
        Some(f) => {
            let ActiveEligibility { key, epoch, waiters } = f;
            let (kept, mut cancelled) = split_waiters(waiters, request_id);
            cancellations.append(&mut cancelled);
            if kept.len() == 0 {
                cancellations.push(Cancellation::FlightWork { epoch });
            } else {
                state.eligibility = Some(ActiveEligibility { key, epoch, waiters: kept });
            }
        },
        None => {},
    }
    assert(cancellations@ =~= spec_cancel_cancellations(old(state)@, request_id@));
    cancellations
}

// ---------------------------------------------------------------------------
// Shared admission checks
// ---------------------------------------------------------------------------

/// How a request takes part in an admission check: the check's epoch, its
/// own waiter id, and whether it runs the check itself.
#[derive(Debug, Clone, Copy, PartialEq, Eq, Structural)]
pub struct EligibilityRegistration {
    pub flight_epoch: u64,
    pub waiter_id: u64,
    pub owner: bool,
}

/// Whether a new admission check request joins the one in flight: same
/// key, and its shared work not cancelled.
pub open spec fn spec_joins(s: StateView, key: Seq<u8>, work_cancelled: bool) -> bool {
    s.eligibility matches Some(f) && f.key == key && !work_cancelled
}

/// The state and registration after `request_id` asks for the admission
/// check `key`: it joins the check in flight, or starts a new one (owned
/// by it) in place of any other.
pub open spec fn spec_eligibility_registered(
    s: StateView,
    key: Seq<u8>,
    request_id: String,
    work_cancelled: bool,
) -> (StateView, EligibilityRegistration) {
    let n = (s.eligibility_epoch + 1) as u64;
    let w = EligibilityWaiter { id: n, request_id };
    if spec_joins(s, key, work_cancelled) {
        let f = s.eligibility->0;
        (
            StateView {
                eligibility_epoch: n,
                eligibility: Some(FlightView { waiters: f.waiters.push(w), ..f }),
                ..s
            },
            EligibilityRegistration { flight_epoch: f.epoch, waiter_id: n, owner: false },
        )
    } else {
        (
            StateView {
                eligibility_epoch: n,
                eligibility: Some(FlightView { key, epoch: n, waiters: seq![w] }),
                ..s
            },
            EligibilityRegistration { flight_epoch: n, waiter_id: n, owner: true },
        )
    }
}

fn bytes_eq(a: &Vec<u8>, b: &Vec<u8>) -> (r: bool)
    ensures
        r == (a@ == b@),
{
    if a.len() != b.len() {
        return false;
    }
    let mut i: usize = 0;
    while i < a.len()
        invariant
            a@.len() == b@.len(),
            i <= a@.len(),
            forall|j: int| 0 <= j < i ==> a@[j] == b@[j],
        decreases a@.len() - i,
    {
        if a[i] != b[i] {
            return false;
        }
        i = i + 1;
    }
    assert(a@ =~= b@);
    true
}

/// Registers `request_id` for the admission check `key`. `work_cancelled`
/// says whether the shared work of the check in flight was cancelled. A
/// check it does not join is abandoned.
pub fn register_eligibility(
    state: &mut PreviewState,
    key: Vec<u8>,
    request_id: String,
    work_cancelled: bool,
) -> (r: (EligibilityRegistration, Vec<Cancellation>))
    requires
        old(state).eligibility_epoch < u64::MAX,
    ensures
        (final(state)@, r.0) == spec_eligibility_registered(
            old(state)@,
            key@,
            request_id,
            work_cancelled,
        ),
        r.1@ == (if spec_joins(old(state)@, key@, work_cancelled) {
            Seq::empty()
        } else {
            flight_cancellations(old(state)@.eligibility)
        }),
{
    let n = state.eligibility_epoch + 1;
    state.eligibility_epoch = n;
    let w = EligibilityWaiter { id: n, request_id };
    let flight = state.eligibility.take();
    match flight {
        Some(f) => {
            if bytes_eq(&f.key, &key) && !work_cancelled {
                let ActiveEligibility { key: k, epoch, waiters } = f;
                let mut waiters = waiters;
                waiters.push(w);
                state.eligibility = Some(ActiveEligibility { key: k, epoch, waiters });
                return (
                    EligibilityRegistration { flight_epoch: epoch, waiter_id: n, owner: false },
                    Vec::new(),
                );
            }
            let mut cancellations: Vec<Cancellation> = Vec::new();
            let old_flight = Some(f);
            push_flight_cancellations(&mut cancellations, &old_flight);
            assert(cancellations@ =~= flight_cancellations(old(state)@.eligibility));
            let waiters = vec![w];
            assert(waiters@ =~= seq![w]);
            state.eligibility = Some(ActiveEligibility { key, epoch: n, waiters });
            assert(state@ =~= spec_eligibility_registered(old(state)@, key@, request_id, work_cancelled).0);
            (EligibilityRegistration { flight_epoch: n, waiter_id: n, owner: true }, cancellations)
        },
        None => {
            let waiters = vec![w];
            assert(waiters@ =~= seq![w]);
            state.eligibility = Some(ActiveEligibility { key, epoch: n, waiters });
            (EligibilityRegistration { flight_epoch: n, waiter_id: n, owner: true }, Vec::new())
        },
    }
}

/// The state after the admission check of `epoch` finishes: it leaves the
/// state only if it is still the one in flight.
pub open spec fn spec_finished(s: StateView, epoch: u64) -> StateView {
    StateView {
        eligibility: match s.eligibility {
            Some(f) => if f.epoch == epoch {
                None
            } else {
                s.eligibility
            },
            None => None,
        },
        ..s
    }
}

/// Records that the admission check of `epoch` finished.
pub fn finish_eligibility(state: &mut PreviewState, epoch: u64)
    ensures
        final(state)@ == spec_finished(old(state)@, epoch),
{
    let current = match &state.eligibility {
        Some(f) => f.epoch == epoch,
        None => false,
    };
    if current {
        state.eligibility = None;
    }
}

/// The waiters other than `waiter_id`, in order.
pub open spec fn waiters_without(ws: Seq<EligibilityWaiter>, waiter_id: u64) -> Seq<
    EligibilityWaiter,
>
    decreases ws.len(),
{
    if ws.len() == 0 {
        Seq::empty()
    } else {
        let rest = waiters_without(ws.drop_last(), waiter_id);
        if ws.last().id == waiter_id {
            rest
        } else {
            rest.push(ws.last())
        }
    }
}

/// The state after waiter `waiter_id` stops waiting on the check of
/// `flight_epoch`: a check nobody waits on any more is dropped.
pub open spec fn spec_detached(s: StateView, flight_epoch: u64, waiter_id: u64) -> StateView {
    StateView {
        eligibility: match s.eligibility {
            Some(f) => if f.epoch != flight_epoch {
                s.eligibility
            } else {
                let kept = waiters_without(f.waiters, waiter_id);
                if kept.len() == 0 {
                    None
                } else {
                    Some(FlightView { waiters: kept, ..f })
                }
            },
            None => None,
        },
        ..s
    }
}

/// Whether detaching the waiter leaves the check of `flight_epoch` with
/// nobody waiting, so that its shared work is cancelled.
pub open spec fn spec_detach_abandons(s: StateView, flight_epoch: u64, waiter_id: u64) -> bool {
    s.eligibility matches Some(f) && f.epoch == flight_epoch && waiters_without(
        f.waiters,
        waiter_id,
    ).len() == 0
}

/// Detaches waiter `waiter_id` from the check of `flight_epoch`.
pub fn detach_eligibility_waiter(state: &mut PreviewState, flight_epoch: u64, waiter_id: u64) -> (r:
    Vec<Cancellation>)
    ensures
        final(state)@ == spec_detached(old(state)@, flight_epoch, waiter_id),
        r@ == (if spec_detach_abandons(old(state)@, flight_epoch, waiter_id) {
            seq![Cancellation::FlightWork { epoch: flight_epoch }]
        } else {
            Seq::empty()
        }),
{
    let flight = state.eligibility.take();
    match flight {
        Some(f) => {
            if f.epoch != flight_epoch {
                state.eligibility = Some(f);
                return Vec::new();
            }
            let ActiveEligibility { key, epoch, waiters } = f;
            let ghost all = waiters@;
            let n: usize = waiters.len();
            let mut kept: Vec<EligibilityWaiter> = Vec::new();
            let mut i: usize = 0;
            for w in it: waiters.into_iter()
                invariant
                    n == all.len(),
                    it.seq() == all,
                    i == it.index(),
                    i <= all.len(),
                    kept@ == waiters_without(all.take(i as int), waiter_id),
            {
                proof {
                    assert(all.take(i + 1).drop_last() =~= all.take(i as int));
                }
                if w.id != waiter_id {
                    kept.push(w);
                }
                i = i + 1;
            }
            assert(all.take(all.len() as int) =~= all);
            if kept.len() == 0 {
                let mut c: Vec<Cancellation> = Vec::new();
                c.push(Cancellation::FlightWork { epoch });
                assert(c@ =~= seq![Cancellation::FlightWork { epoch: flight_epoch }]);
                c
            } else {
                state.eligibility = Some(ActiveEligibility { key, epoch, waiters: kept });
                Vec::new()
            }
        },
        None => Vec::new(),
    }
}

// ---------------------------------------------------------------------------
// Publishing a sample
// ---------------------------------------------------------------------------

/// The state after the active request publishes `artifact`: inside a
/// session the previous sample is kept as the retired one; the request is
/// no longer active.
pub open spec fn spec_published(s: StateView, artifact: PublishedArtifacts, in_session: bool) -> StateView {
    StateView {
        retired: if in_session {
            s.completed
        } else {
            s.retired
        },
        completed: Some(artifact),
        active: None,
        ..s
    }
}

/// Publishes `artifact` as the current sample. The outputs it replaces
/// must have been removed first: the retired one, and outside a session
/// the completed one too.
pub fn publish(state: &mut PreviewState, artifact: PublishedArtifacts, in_session: bool)
    requires
        old(state).retired is None,
        !in_session ==> old(state).completed is None,
    ensures
        final(state)@ == spec_published(old(state)@, artifact, in_session),
{
    if in_session {
        state.retired = state.completed.take();
    }
    state.completed = Some(artifact);
    state.active = None;
}

// ---------------------------------------------------------------------------
// Laws
// ---------------------------------------------------------------------------

/// Once a generation is invalidated (a session begins or is released), no
/// request admitted in that or an earlier epoch can publish any more.
pub proof fn lemma_invalidation_closes_publication(
    s: StateView,
    request_id: Seq<char>,
    session: Option<Seq<char>>,
    epoch: u64,
    owner: Option<String>,
)
    requires
        s.epoch < u64::MAX,
        epoch <= s.epoch,
    ensures
        !spec_publication_is_current(spec_invalidated(s), request_id, session, epoch),
        !spec_publication_is_current(spec_session_ended(s, owner), request_id, session, epoch),
{
}

/// A request admitted in the current epoch of its session may publish,
/// and from then on it is the only one that may.
pub proof fn lemma_latest_request_alone_may_publish(
    s: StateView,
    request_id: String,
    other: Seq<char>,
    session: Option<Seq<char>>,
    epoch: u64,
)
    requires
        spec_epoch_context_is_current(s, session, epoch),
        other != request_id@,
    ensures
        spec_publication_is_current(spec_registered(s, request_id, epoch), request_id@, session, epoch),
        !spec_publication_is_current(spec_registered(s, request_id, epoch), other, session, epoch),
{
}

/// No session is live while outputs of an ended session await removal.
pub open spec fn spec_cleanup_without_session(s: StateView) -> bool {
    s.pending_cleanup is Some ==> s.session_id is None
}

/// Every change of state keeps the rule that no session is live while
/// outputs of an ended session await removal; a session is only made live
/// once nothing awaits removal.
pub proof fn lemma_changes_keep_cleanup_without_session(
    s: StateView,
    request_id: String,
    session: Seq<char>,
    epoch: u64,
    outcomes: Seq<RemovalOutcome>,
    key: Seq<u8>,
    work_cancelled: bool,
    waiter_id: u64,
    artifact: PublishedArtifacts,
    in_session: bool,
)
    requires
        spec_cleanup_without_session(s),
    ensures
        spec_cleanup_without_session(spec_initial()),
        spec_cleanup_without_session(spec_registered(s, request_id, epoch)),
        spec_cleanup_without_session(spec_invalidated(s)),
        spec_cleanup_without_session(spec_session_ended(s, s.session_id)),
        spec_cleanup_without_session(spec_released(s, session)),
        s.pending_cleanup is Some ==> spec_cleanup_without_session(spec_settled(s, outcomes)),
        s.pending_cleanup is None ==> spec_cleanup_without_session(
            StateView { session_id: Some(request_id), ..s },
        ),
        spec_cleanup_without_session(spec_cancelled(s, request_id@)),
        spec_cleanup_without_session(
            spec_eligibility_registered(s, key, request_id, work_cancelled).0,
        ),
        spec_cleanup_without_session(spec_finished(s, epoch)),
        spec_cleanup_without_session(spec_detached(s, epoch, waiter_id)),
        spec_cleanup_without_session(spec_published(s, artifact, in_session)),
{
}

/// Every admission check in flight carries an epoch already handed out.
pub open spec fn spec_flight_epochs_issued(s: StateView) -> bool {
    s.eligibility matches Some(f) ==> f.epoch <= s.eligibility_epoch
}

/// Admission checks get ever newer epochs, so the completion of an
/// earlier check never clears a check started after it.
pub proof fn lemma_stale_completion_keeps_newer_check(
    s: StateView,
    key: Seq<u8>,
    request_id: String,
    work_cancelled: bool,
    earlier: u64,
)
    requires
        spec_flight_epochs_issued(s),
        s.eligibility_epoch < u64::MAX,
        earlier <= s.eligibility_epoch,
    ensures
        spec_flight_epochs_issued(spec_eligibility_registered(s, key, request_id, work_cancelled).0),
        spec_eligibility_registered(s, key, request_id, work_cancelled).1.owner ==> spec_finished(
            spec_eligibility_registered(s, key, request_id, work_cancelled).0,
            earlier,
        ) == spec_eligibility_registered(s, key, request_id, work_cancelled).0,
{
    let t = spec_eligibility_registered(s, key, request_id, work_cancelled).0;
    assert(spec_finished(t, earlier) =~= t || !spec_eligibility_registered(
        s,
        key,
        request_id,
        work_cancelled,
    ).1.owner);
}

/// Removal outcomes all failed.
pub open spec fn all_failed(o: Seq<RemovalOutcome>) -> bool {
    forall|i: int| 0 <= i < o.len() ==> #[trigger] o[i] is Failed
}

/// Removal outcomes none of which failed.
pub open spec fn none_failed(o: Seq<RemovalOutcome>) -> bool {
    forall|i: int| 0 <= i < o.len() ==> !(#[trigger] o[i] is Failed)
}

proof fn lemma_retained_all_or_none(a: Seq<PublishedArtifacts>, o: Seq<RemovalOutcome>)
    requires
        a.len() == o.len(),
    ensures
        all_failed(o) ==> spec_retained(a, o) == a,
        none_failed(o) ==> spec_retained(a, o).len() == 0,
    decreases a.len(),
{
    if a.len() > 0 {
        let o2 = o.take(a.len() - 1);
        assert(o2 =~= o.drop_last());
        lemma_retained_all_or_none(a.drop_last(), o2);
        if all_failed(o) {
            assert(all_failed(o2));
            assert(a.drop_last().push(a.last()) =~= a);
        }
        if none_failed(o) {
            assert(none_failed(o2));
        }
    }
}

/// A release whose cleanup fails ends the session and keeps every one of
/// its outputs pending under its id, due for a retry by a later release
/// of that session or by the next session's beginning; a retry that fails
/// again keeps them all and still due; once a retry removes them nothing
/// is pending, so a later release of the ended session changes nothing
/// and removes nothing, and leaves a newer live session untouched.
pub proof fn lemma_failed_release_is_retained_and_retried(
    s: StateView,
    session: Seq<char>,
    failed: Seq<RemovalOutcome>,
    removed: Seq<RemovalOutcome>,
    newer: String,
)
    requires
        s.epoch < u64::MAX,
        s.pending_cleanup is None,
        opt_string(s.session_id) == Some(session),
        spec_invalidated_artifacts(s).len() > 0,
        failed.len() == spec_invalidated_artifacts(s).len(),
        removed.len() == spec_invalidated_artifacts(s).len(),
        all_failed(failed),
        none_failed(removed),
        newer@ != session,
    ensures
        spec_released(s, session).session_id is None,
        spec_released(s, session).pending_cleanup == Some(
            PendingView { session_id: s.session_id, artifacts: spec_invalidated_artifacts(s) },
        ),
        spec_pending_due(spec_released(s, session), Some(session)),
        spec_settled(spec_released(s, session), failed) == spec_released(s, session),
        spec_pending_due(spec_released(s, session), None),
        spec_pending_due(spec_settled(spec_released(s, session), failed), Some(session)),
        spec_settled(spec_released(s, session), removed).pending_cleanup is None,
        !spec_pending_due(spec_settled(spec_released(s, session), removed), Some(session)),
        spec_released(spec_settled(spec_released(s, session), removed), session)
            == spec_settled(spec_released(s, session), removed),
        spec_released(
            StateView { session_id: Some(newer), ..spec_settled(spec_released(s, session), removed) },
            session,
        ) == (StateView { session_id: Some(newer), ..spec_settled(spec_released(s, session), removed) }),
{
    let a = spec_invalidated_artifacts(s);
    lemma_retained_all_or_none(a, failed);
    lemma_retained_all_or_none(a, removed);
    let t = spec_released(s, session);
    assert(spec_settled(t, failed) =~= t);
}

} // verus!
