use goop_converter::error::GoopError;
use goop_converter::preview::{PublishedArtifacts, RemovalOutcome};
use goop_converter::preview_session::{
    activate_session, cancel_request, is_canonical_preview_session_id, detach_eligibility_waiter, end_session_for_new,
    epoch_context_is_current, finish_eligibility, invalidate_generation, is_fresh_session_id,
    pending_to_retry, publication_is_current, publish, published_for, register_eligibility,
    register_request, release_session, session_epoch, settle_pending_cleanup, settle_slot,
    ActiveRequest, Cancellation, PreviewState,
};

const SESSION: &str = "123e4567-e89b-42d3-a456-426614174000";
const OTHER_SESSION: &str = "223e4567-e89b-42d3-a456-426614174000";

fn artifact(request_id: &str) -> PublishedArtifacts {
    PublishedArtifacts { request_id: request_id.to_string(), path: format!("/previews/{request_id}") }
}

fn begin(state: &mut PreviewState, id: &str) {
    assert!(state.pending_cleanup.is_none());
    assert!(is_fresh_session_id(state, id));
    end_session_for_new(state);
    assert!(state.pending_cleanup.is_none());
    activate_session(state, id.to_string());
}

#[test]
fn legacy_request_captured_before_session_cannot_register_after_session_begins() {
    let mut state = PreviewState::new();
    let captured_epoch = state.epoch;

    begin(&mut state, SESSION);
    let error = register_request(&mut state, "stale-legacy".into(), None, captured_epoch).unwrap_err();

    assert!(matches!(error, GoopError::PreviewUnavailable(_)));
    assert_eq!(state.session_id.as_deref(), Some(SESSION));
    assert!(state.active.is_none());
}

#[test]
fn publication_barrier_rejects_a_released_session_epoch() {
    let mut state = PreviewState {
        epoch: 7,
        session_id: Some(SESSION.into()),
        active: Some(ActiveRequest { request_id: "latest".into(), epoch: 7 }),
        ..PreviewState::default()
    };

    assert!(publication_is_current(&state, "latest", Some(SESSION), 7));

    state.epoch += 1;
    state.session_id = None;

    assert!(!publication_is_current(&state, "latest", Some(SESSION), 7));
}

#[test]
fn stale_eligibility_completion_cannot_clear_a_newer_matching_request_id() {
    let mut state = PreviewState::default();
    let request_id = "same-request-id".to_string();
    let (first, _) = register_eligibility(&mut state, b"first".to_vec(), request_id.clone(), false);
    let (second, _) = register_eligibility(&mut state, b"second".to_vec(), request_id, false);

    finish_eligibility(&mut state, first.flight_epoch);
    assert_eq!(state.eligibility.as_ref().map(|active| active.epoch), Some(second.flight_epoch));

    finish_eligibility(&mut state, second.flight_epoch);
    assert!(state.eligibility.is_none());
}

#[test]
fn a_newer_request_cancels_the_previous_one_and_alone_may_publish() {
    let mut state = PreviewState::new();
    begin(&mut state, SESSION);
    let epoch = session_epoch(&state, Some(SESSION)).unwrap();
    assert!(matches!(session_epoch(&state, None), Err(GoopError::PreviewUnavailable(_))));
    assert_eq!(
        session_epoch(&state, Some("not-a-runtime-session")).unwrap_err().user_message(),
        "Invalid preview session identity"
    );
    assert!(register_request(&mut state, "first".into(), Some(SESSION), epoch).unwrap().is_empty());
    let cancelled = register_request(&mut state, "second".into(), Some(SESSION), epoch).unwrap();
    assert_eq!(cancelled, vec![Cancellation::Request { request_id: "first".into(), epoch }]);
    assert!(!publication_is_current(&state, "first", Some(SESSION), epoch));
    assert!(publication_is_current(&state, "second", Some(SESSION), epoch));
    assert!(epoch_context_is_current(&state, Some(SESSION), epoch));
    assert!(!epoch_context_is_current(&state, Some(OTHER_SESSION), epoch));
}

#[test]
fn publishing_inside_a_session_retires_the_previous_sample() {
    let mut state = PreviewState::new();
    begin(&mut state, SESSION);
    let epoch = state.epoch;
    register_request(&mut state, "a".into(), Some(SESSION), epoch).unwrap();
    publish(&mut state, artifact("a"), true);
    assert!(state.active.is_none());
    register_request(&mut state, "b".into(), Some(SESSION), epoch).unwrap();
    publish(&mut state, artifact("b"), true);
    assert_eq!(state.completed, Some(artifact("b")));
    assert_eq!(state.retired, Some(artifact("a")));
    assert!(published_for(&state.retired, "a"));
    assert!(!published_for(&state.completed, "a"));
}

#[test]
fn released_sessions_keep_failed_removals_pending_until_they_succeed() {
    let mut state = PreviewState::new();
    begin(&mut state, SESSION);
    let epoch = state.epoch;
    register_request(&mut state, "a".into(), Some(SESSION), epoch).unwrap();
    publish(&mut state, artifact("a"), true);
    register_request(&mut state, "b".into(), Some(SESSION), epoch).unwrap();
    let cancelled = release_session(&mut state, SESSION).unwrap();
    assert_eq!(cancelled, vec![Cancellation::Request { request_id: "b".into(), epoch }]);
    assert!(state.session_id.is_none());
    assert_eq!(state.epoch, epoch + 1);
    assert!(!publication_is_current(&state, "b", Some(SESSION), epoch));
    let due = pending_to_retry(&state, Some(SESSION)).unwrap().clone();
    assert_eq!(due, vec![artifact("a")]);
    assert!(pending_to_retry(&state, Some(OTHER_SESSION)).is_none());

    let failed = settle_pending_cleanup(&mut state, &vec![RemovalOutcome::Failed("busy".into())]);
    assert!(matches!(failed, Err(GoopError::Io(ref m)) if m == "busy"));
    assert_eq!(state.pending_cleanup.as_ref().unwrap().artifacts, vec![artifact("a")]);
    // A repeated release only retries the cleanup.
    assert!(release_session(&mut state, SESSION).unwrap().is_empty());
    assert_eq!(state.epoch, epoch + 1);
    assert!(settle_pending_cleanup(&mut state, &vec![RemovalOutcome::NotFound]).is_ok());
    assert!(state.pending_cleanup.is_none());
}

#[test]
fn invalidation_hands_back_published_outputs_in_order() {
    let mut state = PreviewState {
        epoch: 3,
        active: Some(ActiveRequest { request_id: "x".into(), epoch: 3 }),
        completed: Some(artifact("new")),
        retired: Some(artifact("old")),
        ..PreviewState::default()
    };
    let (artifacts, cancelled) = invalidate_generation(&mut state);
    assert_eq!(artifacts, vec![artifact("new"), artifact("old")]);
    assert_eq!(cancelled, vec![Cancellation::Request { request_id: "x".into(), epoch: 3 }]);
    assert_eq!(state.epoch, 4);
    assert!(state.completed.is_none() && state.retired.is_none() && state.active.is_none());
}

#[test]
fn a_failed_slot_removal_keeps_the_output() {
    let mut slot = Some(artifact("a"));
    assert!(settle_slot(&mut slot, &RemovalOutcome::Failed("denied".into())).is_err());
    assert_eq!(slot, Some(artifact("a")));
    assert!(settle_slot(&mut slot, &RemovalOutcome::Removed).is_ok());
    assert!(slot.is_none());
}

#[test]
fn admission_checks_are_shared_by_key_and_dropped_when_nobody_waits() {
    let mut state = PreviewState::new();
    let (owner, c1) = register_eligibility(&mut state, b"k".to_vec(), "r1".into(), false);
    assert!(owner.owner && c1.is_empty());
    let (joined, c2) = register_eligibility(&mut state, b"k".to_vec(), "r2".into(), false);
    assert!(!joined.owner && c2.is_empty());
    assert_eq!(joined.flight_epoch, owner.flight_epoch);
    assert_eq!(state.eligibility.as_ref().unwrap().waiters.len(), 2);

    let cancelled = cancel_request(&mut state, "r1");
    assert_eq!(cancelled, vec![Cancellation::Waiter { id: owner.waiter_id }]);
    assert_eq!(state.eligibility.as_ref().unwrap().waiters.len(), 1);
    let abandoned = detach_eligibility_waiter(&mut state, joined.flight_epoch, joined.waiter_id);
    assert_eq!(abandoned, vec![Cancellation::FlightWork { epoch: owner.flight_epoch }]);
    assert!(state.eligibility.is_none());

    let (first, _) = register_eligibility(&mut state, b"k".to_vec(), "r3".into(), false);
    let (replacing, c3) = register_eligibility(&mut state, b"other".to_vec(), "r4".into(), false);
    assert!(replacing.owner);
    assert_eq!(
        c3,
        vec![
            Cancellation::FlightWork { epoch: first.flight_epoch },
            Cancellation::Waiter { id: first.waiter_id },
        ]
    );
    let (fresh, _) = register_eligibility(&mut state, b"other".to_vec(), "r5".into(), true);
    assert!(fresh.owner && fresh.flight_epoch > replacing.flight_epoch);
}

#[test]
fn only_canonical_session_ids_can_be_released() {
    assert!(is_canonical_preview_session_id(SESSION));
    assert!(!is_canonical_preview_session_id("123E4567-e89b-42d3-a456-426614174000"));
    assert!(!is_canonical_preview_session_id("123e4567e89b-42d3-a456-426614174000-"));
    assert!(!is_canonical_preview_session_id("not-a-runtime-session"));
    let mut state = PreviewState::new();
    begin(&mut state, SESSION);
    let err = release_session(&mut state, "not-a-runtime-session").unwrap_err();
    assert_eq!(err.user_message(), "Invalid preview session identity");
    assert_eq!(state.session_id.as_deref(), Some(SESSION));
}
