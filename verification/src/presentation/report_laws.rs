//! What the head of a report says of the results that it reports.

use vstd::prelude::*;

use crate::presentation::completed;
use crate::presentation::Tint;
use crate::result::{
    AggregateOutcome, CompletedDiagnosticView, Conclusion, PrimaryOutcome, TargetDiagnosticView,
};
use crate::result_laws;

verus! {

/// Whether every target led to one conclusion.
pub open spec fn all_concluded(targets: Seq<TargetDiagnosticView>, conclusion: Conclusion) -> bool {
    forall|i: int| 0 <= i < targets.len() ==> (#[trigger] targets[i]).conclusion == conclusion
}

/// Whether a run came to check a target at all.
pub open spec fn was_checked(run: CompletedDiagnosticView) -> bool {
    !result_laws::left_nothing(run.hostname_resolution) && run.targets.len() > 0
}

/// Whether all targets of a run share one result that is no success.
pub open spec fn all_fell_short(run: CompletedDiagnosticView) -> bool {
    &&& was_checked(run)
    &&& result_laws::all_are(run.targets, PrimaryOutcome::NotSatisfied) || result_laws::all_are(
        run.targets,
        PrimaryOutcome::Indeterminate,
    )
}

/// The length of a title together with its fifth character tells it from every other title.
proof fn lemma_titles()
    ensures
        "TCP CONNECTION SUCCEEDED"@.len() == 24,
        "TCP CONNECTION SUCCEEDED"@[4] == 'C',
        "TCP PORT DID NOT RESPOND"@.len() == 24,
        "TCP PORT DID NOT RESPOND"@[4] == 'P',
        "ADDRESS RESPONDED"@.len() == 17,
        "REACHABLE, BUT A RETRY WAS NEEDED"@.len() == 33,
        "RESULTS DIFFER BETWEEN IP ADDRESSES"@.len() == 35,
        "RESULTS DIFFER BETWEEN IP ADDRESSES"@[4] == 'L',
        "NAME COULD NOT BE RESOLVED RELIABLY"@.len() == 35,
        "NAME COULD NOT BE RESOLVED RELIABLY"@[4] == ' ',
        "TCP CONNECTION WAS REFUSED"@.len() == 26,
        "TCP CONNECTION DID NOT SUCCEED"@.len() == 30,
        "NO ICMP REPLY WAS CONFIRMED"@.len() == 27,
        "NO USABLE IP ADDRESS"@.len() == 20,
{
    reveal_strlit("TCP CONNECTION SUCCEEDED");
    reveal_strlit("TCP PORT DID NOT RESPOND");
    reveal_strlit("ADDRESS RESPONDED");
    reveal_strlit("REACHABLE, BUT A RETRY WAS NEEDED");
    reveal_strlit("RESULTS DIFFER BETWEEN IP ADDRESSES");
    reveal_strlit("NAME COULD NOT BE RESOLVED RELIABLY");
    reveal_strlit("TCP CONNECTION WAS REFUSED");
    reveal_strlit("TCP CONNECTION DID NOT SUCCEED");
    reveal_strlit("NO ICMP REPLY WAS CONFIRMED");
    reveal_strlit("NO USABLE IP ADDRESS");
}

/// The title of a report on checked targets says what became of all of them: it speaks of success
/// exactly where all were satisfied at once, of a refusal exactly where all were refused, and of a
/// difference exactly where they differ.
pub proof fn titles_tell_what_became_of_targets(run: CompletedDiagnosticView)
    requires
        result_laws::sums_up(run.aggregate_outcome, run.hostname_resolution, run.targets),
    ensures
        ({
            let title = completed::title_text(run);
            let all_satisfied = was_checked(run) && result_laws::all_are(
                run.targets,
                PrimaryOutcome::Satisfied,
            );
            let icmp_only = all_fell_short(run) && all_concluded(
                run.targets,
                Conclusion::TcpTimedOutButTargetIcmpResponded,
            );
            let refused = all_fell_short(run) && all_concluded(
                run.targets,
                Conclusion::TcpConnectionRefused,
            );
            let otherwise = all_fell_short(run) && !icmp_only && !refused;
            &&& title == "TCP CONNECTION SUCCEEDED"@ <==> all_satisfied && run.request.port is Some
            &&& title == "ADDRESS RESPONDED"@ <==> all_satisfied && run.request.port is None
            &&& title == "REACHABLE, BUT A RETRY WAS NEEDED"@ <==> was_checked(run)
                && !all_satisfied && result_laws::all_came_through(run.targets)
            &&& title == "RESULTS DIFFER BETWEEN IP ADDRESSES"@ <==> was_checked(run)
                && !result_laws::all_came_through(run.targets) && exists|i: int, j: int|
                0 <= i < run.targets.len() && 0 <= j < run.targets.len() && (
                #[trigger] run.targets[i]).primary_outcome != (
                #[trigger] run.targets[j]).primary_outcome
            &&& title == "TCP PORT DID NOT RESPOND"@ <==> icmp_only
            &&& title == "TCP CONNECTION WAS REFUSED"@ <==> refused
            &&& title == "TCP CONNECTION DID NOT SUCCEED"@ <==> otherwise && run.request.port
                is Some
            &&& title == "NO ICMP REPLY WAS CONFIRMED"@ <==> otherwise && run.request.port is None
        }),
{
    lemma_titles();
    let targets = run.targets;
    if targets.len() > 0 {
        let first = targets[0];
        assert(all_concluded(targets, Conclusion::TcpTimedOutButTargetIcmpResponded)
            ==> first.conclusion == Conclusion::TcpTimedOutButTargetIcmpResponded);
        assert(result_laws::all_are(targets, PrimaryOutcome::Satisfied) ==> first.primary_outcome
            == PrimaryOutcome::Satisfied);
        assert(result_laws::all_are(targets, PrimaryOutcome::NotSatisfied)
            ==> first.primary_outcome == PrimaryOutcome::NotSatisfied);
        assert(result_laws::all_are(targets, PrimaryOutcome::Indeterminate)
            ==> first.primary_outcome == PrimaryOutcome::Indeterminate);
        assert(result_laws::all_came_through(targets) ==> result_laws::came_through(first));
    }
    assert(completed::all_are(targets, Conclusion::TcpTimedOutButTargetIcmpResponded)
        <==> targets.len() > 0 && all_concluded(
        targets,
        Conclusion::TcpTimedOutButTargetIcmpResponded,
    ));
    assert(completed::all_are(targets, Conclusion::TcpConnectionRefused) <==> targets.len() > 0
        && all_concluded(targets, Conclusion::TcpConnectionRefused));
}

/// A report on a run without any target to check says so in its title, and whether the name could
/// not be resolved reliably or led to no address that can be used.
pub proof fn titles_tell_why_nothing_was_checked(run: CompletedDiagnosticView)
    requires
        result_laws::sums_up(run.aggregate_outcome, run.hostname_resolution, run.targets),
    ensures
        completed::title_text(run) == "NAME COULD NOT BE RESOLVED RELIABLY"@ <==> !was_checked(run)
            && run.hostname_resolution is NonDefinitiveFailure,
        completed::title_text(run) == "NO USABLE IP ADDRESS"@ <==> !was_checked(run) && !(
        run.hostname_resolution is NonDefinitiveFailure),
{
    lemma_titles();
}

/// Reports on runs that ended differently have different titles, and so have different marks
/// where one run was a clean success and the other was not.
pub proof fn different_results_have_different_titles(
    run: CompletedDiagnosticView,
    other: CompletedDiagnosticView,
)
    requires
        run.aggregate_outcome != other.aggregate_outcome,
    ensures
        completed::title_text(run) != completed::title_text(other),
        run.aggregate_outcome == AggregateOutcome::AllSatisfied ==> completed::marker_text(
            run.aggregate_outcome,
        ) != completed::marker_text(other.aggregate_outcome),
{
    lemma_titles();
    lemma_marks();
}

proof fn lemma_marks()
    ensures
        "✓ "@[0] == '✓',
        "! "@[0] == '!',
        "× "@[0] == '×',
        "✓ "@.len() == 2,
        "! "@.len() == 2,
        "× "@.len() == 2,
{
    reveal_strlit("✓ ");
    reveal_strlit("! ");
    reveal_strlit("× ");
}

/// The mark and the color of a report show success exactly where every target was satisfied at
/// once, failure exactly where nothing was checked or all targets share a result that is no
/// success, and a warning everywhere else.
pub proof fn marks_follow_the_results(run: CompletedDiagnosticView)
    requires
        result_laws::sums_up(run.aggregate_outcome, run.hostname_resolution, run.targets),
    ensures
        ({
            let mark = completed::marker_text(run.aggregate_outcome)[0];
            let tint = completed::verdict_tint(run.aggregate_outcome);
            let clean = was_checked(run) && result_laws::all_are(
                run.targets,
                PrimaryOutcome::Satisfied,
            );
            let failed = !was_checked(run) || all_fell_short(run);
            &&& mark == '✓' <==> clean
            &&& mark == '×' <==> failed
            &&& mark == '!' <==> !clean && !failed
            &&& tint == Tint::Success <==> clean
            &&& tint == Tint::Failure <==> failed
            &&& tint == Tint::Warning <==> !clean && !failed
        }),
{
    lemma_marks();
    let targets = run.targets;
    if targets.len() > 0 {
        let first = targets[0];
        assert(result_laws::all_are(targets, PrimaryOutcome::Satisfied) ==> first.primary_outcome
            == PrimaryOutcome::Satisfied);
        assert(result_laws::all_are(targets, PrimaryOutcome::NotSatisfied)
            ==> first.primary_outcome == PrimaryOutcome::NotSatisfied);
        assert(result_laws::all_are(targets, PrimaryOutcome::Indeterminate)
            ==> first.primary_outcome == PrimaryOutcome::Indeterminate);
        assert(result_laws::all_came_through(targets) ==> result_laws::came_through(first));
    }
}

} // verus!
