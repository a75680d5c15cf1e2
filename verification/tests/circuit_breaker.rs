use viber_router::circuit_breaker::{
    decide_access, derive_state, on_failure, on_success, Access, CbState, FailureOutcome,
    SuccessOutcome,
};

#[test]
fn state_is_open_when_open_key_exists() {
    assert_eq!(derive_state(true, false), CbState::Open);
}

#[test]
fn state_is_open_even_if_half_marker_also_exists() {

    assert_eq!(derive_state(true, true), CbState::Open);
}

#[test]
fn state_is_half_open_when_only_half_marker_exists() {
    assert_eq!(derive_state(false, true), CbState::HalfOpen);
}

#[test]
fn state_is_closed_when_no_keys_exist() {
    assert_eq!(derive_state(false, false), CbState::Closed);
}

#[test]
fn closed_circuit_allows_request() {
    assert_eq!(decide_access(CbState::Closed, false), Access::Allow);
}

#[test]
fn open_circuit_skips_request() {
    assert_eq!(decide_access(CbState::Open, false), Access::Skip);
}

#[test]
fn half_open_with_permit_probes() {
    assert_eq!(decide_access(CbState::HalfOpen, true), Access::Probe);
}

#[test]
fn half_open_without_permit_skips() {

    assert_eq!(decide_access(CbState::HalfOpen, false), Access::Skip);
}

#[test]
fn success_on_closed_circuit_is_noop() {
    assert_eq!(on_success(CbState::Closed, 1, 2), SuccessOutcome::Noop);
}

#[test]
fn probe_success_below_threshold_stays_half_open() {
    assert_eq!(
        on_success(CbState::HalfOpen, 1, 2),
        SuccessOutcome::StayHalfOpen
    );
}

#[test]
fn probe_success_at_threshold_closes_circuit() {
    assert_eq!(on_success(CbState::HalfOpen, 2, 2), SuccessOutcome::Close);
}

#[test]
fn probe_success_above_threshold_closes_circuit() {
    assert_eq!(on_success(CbState::HalfOpen, 3, 2), SuccessOutcome::Close);
}

#[test]
fn failure_below_threshold_counts() {
    assert_eq!(on_failure(CbState::Closed, 2, 3), FailureOutcome::Count);
}

#[test]
fn failure_at_threshold_trips() {
    assert_eq!(on_failure(CbState::Closed, 3, 3), FailureOutcome::Trip);
}

#[test]
fn failure_above_threshold_trips() {
    assert_eq!(on_failure(CbState::Closed, 4, 3), FailureOutcome::Trip);
}

#[test]
fn probe_failure_reopens_immediately() {

    assert_eq!(on_failure(CbState::HalfOpen, 1, 3), FailureOutcome::Reopen);
}
