//! How the process ends: an interruption comes first, and a report that could not be written is
//! never a success.

use vstd::prelude::*;

use crate::engine::run::{self, cancelled_result};
use crate::result::{DiagnosticResult, DiagnosticResultView, ExitStatus};

verus! {

/// The result that is reported: an interruption takes the place of any other.
pub open spec fn reported(result: DiagnosticResultView, cancelled: bool) -> DiagnosticResultView {
    if cancelled {
        run::interrupted()
    } else {
        result
    }
}

/// Puts an interruption, observed at any time before the report, in the place of the result.
pub fn apply_cancellation_priority(result: DiagnosticResult, cancelled: bool) -> (answer:
    DiagnosticResult)
    ensures
        answer.deep_view() == reported(result.deep_view(), cancelled),
{
    if cancelled {
        cancelled_result()
    } else {
        result
    }
}

/// The status after a report could not be written.
pub open spec fn unwritten(status: ExitStatus) -> ExitStatus {
    if status == ExitStatus::Cancelled {
        ExitStatus::Cancelled
    } else {
        ExitStatus::ExecutionError
    }
}

/// Says how the process ends after a report could not be written.
pub fn status_after_write_failure(status: ExitStatus) -> (result: ExitStatus)
    ensures
        result == unwritten(status),
{
    if status == ExitStatus::Cancelled {
        ExitStatus::Cancelled
    } else {
        ExitStatus::ExecutionError
    }
}

/// An interruption decides how the process ends, whatever the run led to and whether or not its
/// report could be written.
pub proof fn interruption_decides_the_exit_code(result: DiagnosticResultView)
    ensures
        reported(result, true).status().number() == 130,
        unwritten(reported(result, true).status()).number() == 130,
{
}

/// Where a report could not be written, the process does not end as after a completed check.
pub proof fn unwritten_reports_are_errors(status: ExitStatus)
    ensures
        unwritten(status).number() == 130 || unwritten(status).number() == 2,
        unwritten(status).number() == 130 <==> status == ExitStatus::Cancelled,
{
}

} // verus!
