use reach::{
    Cancelled, DiagnosticResult, ExecutionError, ExecutionErrorKind, ExitStatus,
    apply_cancellation_priority, status_after_write_failure,
};

#[test]
fn cancellation_priority_survives_a_failure_to_write_its_explanation() {
    assert_eq!(
        status_after_write_failure(ExitStatus::Cancelled),
        ExitStatus::Cancelled
    );
    assert_eq!(
        status_after_write_failure(ExitStatus::Success),
        ExitStatus::ExecutionError
    );
}

#[test]
fn cancellation_observed_after_core_completion_still_has_top_priority() {
    let result = DiagnosticResult::ExecutionError(ExecutionError {
        kind: ExecutionErrorKind::InternalFailure,
        safe_message: "synthetic".into(),
        partial_evidence: Vec::new(),
    });
    assert!(matches!(
        apply_cancellation_priority(result, true),
        DiagnosticResult::Cancelled(_)
    ));
}

#[test]
fn a_result_without_an_interruption_is_reported_as_it_is() {
    let result = DiagnosticResult::ExecutionError(ExecutionError {
        kind: ExecutionErrorKind::ResourceExhausted,
        safe_message: "synthetic".into(),
        partial_evidence: Vec::new(),
    });
    assert_eq!(apply_cancellation_priority(result.clone(), false), result);
    let cancelled = apply_cancellation_priority(result, true);
    assert_eq!(cancelled.exit_status().code(), 130);
    assert_eq!(status_after_write_failure(cancelled.exit_status()).code(), 130);
}

#[test]
fn every_status_has_its_exit_code() {
    assert_eq!(ExitStatus::Success.code(), 0);
    assert_eq!(ExitStatus::DiagnosticNonSuccess.code(), 1);
    assert_eq!(ExitStatus::ExecutionError.code(), 2);
    assert_eq!(ExitStatus::Cancelled.code(), 130);
    assert_eq!(
        status_after_write_failure(ExitStatus::DiagnosticNonSuccess),
        ExitStatus::ExecutionError
    );
}
