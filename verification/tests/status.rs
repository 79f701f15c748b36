//! Statuses and the tokens of subscriptions.

use cirrus::error::CirrusError;
use cirrus::status::{Status, StatusError, StatusOutcome, SubToken};
use cirrus::value::Double;

#[test]
fn status_success_via_future() {
    let mut s = Status::new();
    assert!(s.poll().is_none());
    s.complete(StatusOutcome::Success);
    assert_eq!(s.poll(), Some(Ok(())));
}

#[test]
fn status_failure_via_callback() {
    let mut s = Status::new();
    assert!(s.add_callback(5).is_none());
    let fired = s.complete(StatusOutcome::Failed(StatusError::Failed("boom".into())));
    assert_eq!(fired, vec![5]);
    assert_eq!(s.exception(), Some(StatusError::Failed("boom".into())));
    assert!(!s.success() && s.done_state());
}

#[test]
fn a_status_completes_once() {
    let mut s = Status::new();
    s.add_callback(1);
    s.add_callback(2);
    assert_eq!(s.complete(StatusOutcome::Success), vec![1, 2]);
    assert!(s.complete(StatusOutcome::Failed(StatusError::Timeout)).is_empty());
    assert!(s.success());
    assert_eq!(s.add_callback(3), Some(StatusOutcome::Success));
}

#[test]
fn ready_made_statuses() {
    assert!(Status::done().success());
    let s = Status::fail(StatusError::Cancelled);
    assert_eq!(s.poll(), Some(Err(StatusError::Cancelled)));
}

#[test]
fn progress_is_told() {
    let mut s = Status::new();
    let half = Double { bits: 0.5f64.to_bits() };
    s.set_progress(half);
    assert_eq!(s.progress(), half);
    let shown = s.inspect();
    assert!(format!("{:?}", shown.get("done")).contains("false"));
}

#[test]
fn status_errors_become_engine_errors() {
    assert_eq!(StatusError::Failed("x".into()).into_error(), CirrusError::Backend("x".into()));
    assert_eq!(StatusError::Cancelled.into_error(), CirrusError::Cancelled);
    assert!(!StatusError::Timeout.describe().is_empty());
}

#[test]
fn a_token_unsubscribes_once() {
    let mut t = SubToken::new(9);
    assert_eq!(t.release(), Some(9));
    assert_eq!(t.release(), None);
    assert_eq!(SubToken::noop().release(), None);
}
