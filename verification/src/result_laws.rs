//! What holds of every completed run: how it sums up its targets, and which evidence it shows.

use vstd::prelude::*;

use crate::input::ParsedRequestView;
use crate::lists;
use crate::model::{InitialNetworkSnapshotView, SystemResolverObservationView};
use crate::result::{
    self, AggregateOutcome, Conclusion, EvidenceRole, EvidenceView, HostnameResolutionOutcomeView,
    PrimaryOutcome, ResolverDependencyDiagnosticView, TargetDiagnostic, TargetDiagnosticView,
};
use crate::sorting::{self, Keyed};

verus! {

/// Whether every target has one outcome.
pub open spec fn all_are(targets: Seq<TargetDiagnosticView>, outcome: PrimaryOutcome) -> bool {
    forall|i: int| 0 <= i < targets.len() ==> (#[trigger] targets[i]).primary_outcome == outcome
}

/// Whether a target came through in the end, on its first attempt or after a timeout.
pub open spec fn came_through(target: TargetDiagnosticView) -> bool {
    match target.primary_outcome {
        PrimaryOutcome::Satisfied => true,
        PrimaryOutcome::SatisfiedWithAnomaly => true,
        PrimaryOutcome::NotSatisfied => false,
        PrimaryOutcome::Indeterminate => false,
    }
}

/// Whether every target came through in the end.
pub open spec fn all_came_through(targets: Seq<TargetDiagnosticView>) -> bool {
    forall|i: int| 0 <= i < targets.len() ==> came_through(#[trigger] targets[i])
}

/// Whether name resolution, where it was asked for, left nothing to check.
pub open spec fn left_nothing(hostname_resolution: HostnameResolutionOutcomeView) -> bool {
    match hostname_resolution {
        HostnameResolutionOutcomeView::NotRequested => false,
        HostnameResolutionOutcomeView::Succeeded(addresses) => addresses.formal_targets.len() == 0,
        _ => true,
    }
}

/// Whether an aggregate outcome sums up the results of targets.
pub open spec fn sums_up(
    outcome: AggregateOutcome,
    hostname_resolution: HostnameResolutionOutcomeView,
    targets: Seq<TargetDiagnosticView>,
) -> bool {
    let checked = !left_nothing(hostname_resolution) && targets.len() > 0;
    match outcome {
        AggregateOutcome::NoFormalTargets => !checked,
        AggregateOutcome::AllSatisfied => checked && all_are(targets, PrimaryOutcome::Satisfied),
        AggregateOutcome::SatisfiedWithAnomaly => {
            &&& checked
            &&& all_came_through(targets)
            &&& !all_are(targets, PrimaryOutcome::Satisfied)
        },
        AggregateOutcome::NoneCleanlySatisfied => checked && (all_are(
            targets,
            PrimaryOutcome::NotSatisfied,
        ) || all_are(targets, PrimaryOutcome::Indeterminate)),
        AggregateOutcome::Mixed => {
            &&& checked
            &&& !all_came_through(targets)
            &&& exists|i: int, j: int|
                0 <= i < targets.len() && 0 <= j < targets.len() && (
                #[trigger] targets[i]).primary_outcome != (#[trigger] targets[j]).primary_outcome
        },
    }
}

/// Whether a conclusion says what an aggregate outcome means.
pub open spec fn says(
    conclusion: Conclusion,
    outcome: AggregateOutcome,
    hostname_resolution: HostnameResolutionOutcomeView,
) -> bool {
    match conclusion {
        Conclusion::AllTargetsSatisfied => outcome == AggregateOutcome::AllSatisfied,
        Conclusion::TargetsSatisfiedWithAnomaly => outcome
            == AggregateOutcome::SatisfiedWithAnomaly,
        Conclusion::TargetResultsMixed => outcome == AggregateOutcome::Mixed,
        Conclusion::NoTargetCleanlySatisfied => outcome == AggregateOutcome::NoneCleanlySatisfied,
        Conclusion::HostnameResolutionDefinitiveNegative => outcome
            == AggregateOutcome::NoFormalTargets && hostname_resolution is DefinitiveNegative,
        Conclusion::HostnameResolutionNoUsableAddress => outcome
            == AggregateOutcome::NoFormalTargets && hostname_resolution
            is NegativeWithoutUsableAddress,
        Conclusion::HostnameResolutionIndeterminate => outcome == AggregateOutcome::NoFormalTargets
            && hostname_resolution is NonDefinitiveFailure,
        Conclusion::HostnameNoFormalTargets => outcome == AggregateOutcome::NoFormalTargets && (
        hostname_resolution is NotRequested || hostname_resolution is Succeeded
            || hostname_resolution is SucceededWithoutUsableAddress),
        _ => false,
    }
}

/// A completed run is a clean success exactly where every target was satisfied at once, an
/// anomalous one where all came through but not all at once, mixed where targets differ and some
/// did not come through, and a failure where all share one result that is no success. What it
/// concludes says just that, and where there was nothing to check it says what name resolution
/// answered.
pub proof fn completed_runs_sum_up_their_targets(
    request: ParsedRequestView,
    initial_snapshot: InitialNetworkSnapshotView,
    system_resolver: Option<SystemResolverObservationView>,
    hostname_resolution: HostnameResolutionOutcomeView,
    targets: Seq<TargetDiagnosticView>,
    resolver_diagnostics: Seq<ResolverDependencyDiagnosticView>,
    run_evidence: Seq<EvidenceView>,
)
    ensures
        ({
            let run = result::completed_run(
                request,
                initial_snapshot,
                system_resolver,
                hostname_resolution,
                targets,
                resolver_diagnostics,
                run_evidence,
            );
            &&& sums_up(run.aggregate_outcome, hostname_resolution, targets)
            &&& sums_up(run.aggregate_outcome, hostname_resolution, run.targets)
            &&& says(run.conclusion, run.aggregate_outcome, hostname_resolution)
            &&& run.request == request
            &&& run.initial_snapshot == initial_snapshot
            &&& run.system_resolver == system_resolver
            &&& run.hostname_resolution == hostname_resolution
            &&& run.resolver_diagnostics == resolver_diagnostics
        }),
{
    let run = result::completed_run(
        request,
        initial_snapshot,
        system_resolver,
        hostname_resolution,
        targets,
        resolver_diagnostics,
        run_evidence,
    );
    let ordered = run.targets;
    sorting::sorting_is_stable::<TargetDiagnostic>(targets);
    lists::lemma_reordered_contains(ordered, targets);
    lemma_sum_of_ordered(hostname_resolution, ordered);
    lemma_sum_in_any_order(run.aggregate_outcome, hostname_resolution, ordered, targets);
}

proof fn lemma_sum_of_ordered(
    hostname_resolution: HostnameResolutionOutcomeView,
    ordered: Seq<TargetDiagnosticView>,
)
    ensures
        sums_up(
            result::aggregate_of(hostname_resolution, ordered),
            hostname_resolution,
            ordered,
        ),
{
    let outcome = result::aggregate_of(hostname_resolution, ordered);
    if outcome == AggregateOutcome::Mixed {
        let i = choose|i: int|
            0 <= i < ordered.len() && (#[trigger] ordered[i]).primary_outcome
                != ordered[0].primary_outcome;
        assert(ordered[i].primary_outcome != ordered[0].primary_outcome);
        assert(!all_came_through(ordered)) by {
            let k = choose|k: int|
                0 <= k < ordered.len() && !(#[trigger] ordered[k]).primary_outcome.eventual();
            assert(!came_through(ordered[k]));
        }
    } else if outcome == AggregateOutcome::NoneCleanlySatisfied {
        let k = choose|k: int|
            0 <= k < ordered.len() && !(#[trigger] ordered[k]).primary_outcome.eventual();
        assert(ordered[k].primary_outcome == ordered[0].primary_outcome);
    } else if outcome == AggregateOutcome::SatisfiedWithAnomaly {
        assert(all_came_through(ordered));
        assert(!all_are(ordered, PrimaryOutcome::Satisfied)) by {
            let k = choose|k: int|
                0 <= k < ordered.len() && !(#[trigger] ordered[k]).primary_outcome.clean();
            assert(ordered[k].primary_outcome != PrimaryOutcome::Satisfied);
        }
    }
}

proof fn lemma_sum_in_any_order(
    outcome: AggregateOutcome,
    hostname_resolution: HostnameResolutionOutcomeView,
    ordered: Seq<TargetDiagnosticView>,
    targets: Seq<TargetDiagnosticView>,
)
    requires
        ordered.to_multiset() == targets.to_multiset(),
        sums_up(outcome, hostname_resolution, ordered),
    ensures
        sums_up(outcome, hostname_resolution, targets),
{
    lists::lemma_reordered_contains(ordered, targets);
    assert forall|k: PrimaryOutcome| #[trigger] all_are(ordered, k) == all_are(targets, k) by {
        let holds = |target: TargetDiagnosticView| target.primary_outcome == k;
        if all_are(ordered, k) {
            lists::lemma_reordered_all(ordered, targets, holds);
            assert forall|i: int| 0 <= i < targets.len() implies (
            #[trigger] targets[i]).primary_outcome == k by {
                assert(holds(targets[i]));
            }
        }
        if all_are(targets, k) {
            lists::lemma_reordered_all(targets, ordered, holds);
            assert forall|i: int| 0 <= i < ordered.len() implies (
            #[trigger] ordered[i]).primary_outcome == k by {
                assert(holds(ordered[i]));
            }
        }
    }
    let through = |target: TargetDiagnosticView| came_through(target);
    if all_came_through(ordered) {
        lists::lemma_reordered_all(ordered, targets, through);
        assert forall|i: int| 0 <= i < targets.len() implies came_through(#[trigger] targets[i]) by {
            assert(through(targets[i]));
        }
    }
    if all_came_through(targets) {
        lists::lemma_reordered_all(targets, ordered, through);
        assert forall|i: int| 0 <= i < ordered.len() implies came_through(#[trigger] ordered[i]) by {
            assert(through(ordered[i]));
        }
    }
    assert(all_are(ordered, PrimaryOutcome::Satisfied) == all_are(
        targets,
        PrimaryOutcome::Satisfied,
    ));
    assert(all_are(ordered, PrimaryOutcome::NotSatisfied) == all_are(
        targets,
        PrimaryOutcome::NotSatisfied,
    ));
    assert(all_are(ordered, PrimaryOutcome::Indeterminate) == all_are(
        targets,
        PrimaryOutcome::Indeterminate,
    ));
    if outcome == AggregateOutcome::Mixed {
        let (i, j) = choose|i: int, j: int|
            0 <= i < ordered.len() && 0 <= j < ordered.len() && (
            #[trigger] ordered[i]).primary_outcome != (#[trigger] ordered[j]).primary_outcome;
        assert(ordered.contains(ordered[i]) && ordered.contains(ordered[j]));
        assert(targets.contains(ordered[i]) && targets.contains(ordered[j]));
        let k = choose|k: int| 0 <= k < targets.len() && targets[k] == ordered[i];
        let l = choose|l: int| 0 <= l < targets.len() && targets[l] == ordered[j];
        assert(targets[k].primary_outcome != targets[l].primary_outcome);
    }
}

/// The place of a role in a list of key evidence: what decided the check comes first, then earlier
/// anomalies, then what narrows a failure down, then what could not be observed.
pub open spec fn place_of(role: EvidenceRole) -> int {
    match role {
        EvidenceRole::PrimaryDecision => 1,
        EvidenceRole::AnomalyHistory => 2,
        EvidenceRole::BoundaryNarrowing => 3,
        EvidenceRole::CapabilityLimitation => 4,
        EvidenceRole::Context => 5,
    }
}

/// Key evidence stands in the order of its roles and, within a role, of its identifiers, and holds
/// no context.
pub proof fn key_evidence_stands_in_order(evidence: Seq<EvidenceView>)
    ensures
        forall|i: int, j: int|
            #![trigger result::key_evidence_of(evidence)[i], result::key_evidence_of(evidence)[j]]
            0 <= i < j < result::key_evidence_of(evidence).len() ==> {
                let earlier = result::key_evidence_of(evidence)[i];
                let later = result::key_evidence_of(evidence)[j];
                ||| place_of(earlier.role) < place_of(later.role)
                ||| earlier.role == later.role && earlier.id.0 <= later.id.0
            },
        forall|item: EvidenceView| #[trigger]
            result::key_evidence_of(evidence).contains(item) <==> evidence.contains(item)
                && item.role != EvidenceRole::Context,
{
    result::key_evidence_is_ordered_and_complete(evidence);
    let kept = result::key_evidence_of(evidence);
    assert forall|i: int, j: int|
        #![trigger kept[i], kept[j]]
        0 <= i < j < kept.len() implies {
        ||| place_of(kept[i].role) < place_of(kept[j].role)
        ||| kept[i].role == kept[j].role && kept[i].id.0 <= kept[j].id.0
    } by {
        assert(kept.contains(kept[i]) && kept.contains(kept[j]));
    }
}

/// The ordinal by which a target stands in its run.
pub open spec fn ordinal_of(target: TargetDiagnosticView) -> int {
    match target.resolver_ordinal {
        Some(ordinal) => ordinal as int,
        None => 0,
    }
}

/// Whether two targets ended alike.
pub open spec fn alike(left: TargetDiagnosticView, right: TargetDiagnosticView) -> bool {
    &&& left.primary_outcome == right.primary_outcome
    &&& left.conclusion == right.conclusion
    &&& left.diagnostic_conclusions == right.diagnostic_conclusions
}

/// Whether the key evidence of a target is shown.
pub open spec fn is_shown(target: TargetDiagnosticView, shown: Seq<EvidenceView>) -> bool {
    forall|item: EvidenceView| #[trigger]
        target.key_evidence.contains(item) && item.role != EvidenceRole::Context ==> shown.contains(
            item,
        )
}

/// Whether a target ended like another one, and its key evidence is shown.
pub open spec fn stands_for(
    targets: Seq<TargetDiagnosticView>,
    place: int,
    other: int,
    shown: Seq<EvidenceView>,
) -> bool {
    &&& 0 <= place < targets.len()
    &&& alike(targets[place], targets[other])
    &&& is_shown(targets[place], shown)
}

/// Whether the key evidence of some target that ended like the given one is shown.
pub open spec fn is_represented(
    targets: Seq<TargetDiagnosticView>,
    place: int,
    shown: Seq<EvidenceView>,
) -> bool {
    exists|other: int| #[trigger] stands_for(targets, other, place, shown)
}

/// Targets stand in the order of the resolver. Every piece of evidence of the run and of its
/// targets is kept, and no other. Of targets that ended alike, the key evidence of one is shown,
/// beside that of the run; nothing else is.
pub proof fn completed_runs_show_every_result(
    request: ParsedRequestView,
    initial_snapshot: InitialNetworkSnapshotView,
    system_resolver: Option<SystemResolverObservationView>,
    hostname_resolution: HostnameResolutionOutcomeView,
    targets: Seq<TargetDiagnosticView>,
    resolver_diagnostics: Seq<ResolverDependencyDiagnosticView>,
    run_evidence: Seq<EvidenceView>,
)
    ensures
        ({
            let run = result::completed_run(
                request,
                initial_snapshot,
                system_resolver,
                hostname_resolution,
                targets,
                resolver_diagnostics,
                run_evidence,
            );
            &&& forall|i: int, j: int|
                #![trigger run.targets[i], run.targets[j]]
                0 <= i < j < run.targets.len() ==> ordinal_of(run.targets[i]) <= ordinal_of(
                    run.targets[j],
                )
            &&& forall|item: EvidenceView| #[trigger]
                run.evidence.contains(item) <==> run_evidence.contains(item) || exists|i: int|
                    0 <= i < run.targets.len() && (#[trigger] run.targets[i]).evidence.contains(
                        item,
                    )
            &&& forall|i: int|
                0 <= i < run.targets.len() ==> #[trigger] is_represented(
                    run.targets,
                    i,
                    run.key_evidence,
                )
            &&& forall|item: EvidenceView| #[trigger]
                run_evidence.contains(item) && item.role != EvidenceRole::Context
                    ==> run.key_evidence.contains(item)
            &&& forall|item: EvidenceView| #[trigger]
                run.key_evidence.contains(item) ==> item.role != EvidenceRole::Context && (
                run_evidence.contains(item) || exists|i: int|
                    0 <= i < run.targets.len() && (
                    #[trigger] run.targets[i]).key_evidence.contains(item))
        }),
{
    let run = result::completed_run(
        request,
        initial_snapshot,
        system_resolver,
        hostname_resolution,
        targets,
        resolver_diagnostics,
        run_evidence,
    );
    let ordered = run.targets;
    sorting::sorting_is_stable::<TargetDiagnostic>(targets);
    assert forall|i: int, j: int|
        #![trigger ordered[i], ordered[j]]
        0 <= i < j < ordered.len() implies ordinal_of(ordered[i]) <= ordinal_of(ordered[j]) by {
        assert(sorting::key_le(
            <TargetDiagnostic as Keyed>::key_of(ordered[i]),
            <TargetDiagnostic as Keyed>::key_of(ordered[j]),
        ));
        reveal_with_fuel(sorting::key_le, 2);
    }
    lemma_all_evidence(ordered);
    lemma_representatives_come_from_targets(ordered);
    let candidates = run_evidence + result::representative_evidence(ordered);
    let all = run_evidence + result::evidence_of(ordered);
    result::key_evidence_is_ordered_and_complete(candidates);
    lemma_joined_contains(run_evidence, result::representative_evidence(ordered));
    lemma_joined_contains(run_evidence, result::evidence_of(ordered));
    assert forall|i: int| 0 <= i < ordered.len() implies #[trigger] is_represented(
        ordered,
        i,
        run.key_evidence,
    ) by {
        let j = lemma_representative(ordered, i);
        lemma_kept_is_shown(ordered[j], result::representative_evidence(ordered), run_evidence);
        assert(stands_for(ordered, j, i, run.key_evidence));
    }
    assert forall|item: EvidenceView| #[trigger]
        run_evidence.contains(item) && item.role
            != EvidenceRole::Context implies run.key_evidence.contains(item) by {
        assert(candidates.contains(item));
    }
    assert forall|item: EvidenceView| #[trigger] run.key_evidence.contains(item) implies item.role
        != EvidenceRole::Context && (run_evidence.contains(item) || exists|i: int|
        0 <= i < ordered.len() && (#[trigger] ordered[i]).key_evidence.contains(item)) by {
        assert(candidates.contains(item));
    }
}

proof fn lemma_joined_contains(first: Seq<EvidenceView>, second: Seq<EvidenceView>)
    ensures
        forall|item: EvidenceView| #[trigger]
            (first + second).contains(item) <==> first.contains(item) || second.contains(item),
{
    let joined = first + second;
    assert forall|item: EvidenceView| #[trigger]
        joined.contains(item) <==> first.contains(item) || second.contains(item) by {
        if first.contains(item) {
            let k = choose|k: int| 0 <= k < first.len() && first[k] == item;
            assert(joined[k] == item);
        }
        if second.contains(item) {
            let k = choose|k: int| 0 <= k < second.len() && second[k] == item;
            assert(joined[first.len() + k] == item);
        }
        if joined.contains(item) {
            let k = choose|k: int| 0 <= k < joined.len() && joined[k] == item;
            if k < first.len() {
                assert(first[k] == item);
            } else {
                assert(second[k - first.len()] == item);
            }
        }
    }
}

proof fn lemma_all_evidence(targets: Seq<TargetDiagnosticView>)
    ensures
        forall|item: EvidenceView| #[trigger]
            result::evidence_of(targets).contains(item) <==> exists|i: int|
                0 <= i < targets.len() && (#[trigger] targets[i]).evidence.contains(item),
    decreases targets.len(),
{
    if targets.len() > 0 {
        let front = targets.drop_last();
        let last = targets.len() - 1;
        lemma_all_evidence(front);
        lemma_joined_contains(result::evidence_of(front), targets.last().evidence);
        assert forall|item: EvidenceView| #[trigger]
            result::evidence_of(targets).contains(item) <==> exists|i: int|
                0 <= i < targets.len() && (#[trigger] targets[i]).evidence.contains(item) by {
            if result::evidence_of(front).contains(item) {
                let i = choose|i: int|
                    0 <= i < front.len() && (#[trigger] front[i]).evidence.contains(item);
                assert(targets[i].evidence.contains(item));
            }
            if targets.last().evidence.contains(item) {
                assert(targets[last].evidence.contains(item));
            }
            if exists|i: int|
                0 <= i < targets.len() && (#[trigger] targets[i]).evidence.contains(item) {
                let i = choose|i: int|
                    0 <= i < targets.len() && (#[trigger] targets[i]).evidence.contains(item);
                if i < last {
                    assert(front[i].evidence.contains(item));
                }
            }
        }
    }
}

proof fn lemma_kept_is_shown(
    target: TargetDiagnosticView,
    kept: Seq<EvidenceView>,
    run_evidence: Seq<EvidenceView>,
)
    requires
        is_kept(target, kept),
    ensures
        is_shown(target, result::key_evidence_of(run_evidence + kept)),
{
    lemma_joined_contains(run_evidence, kept);
    result::key_evidence_is_ordered_and_complete(run_evidence + kept);
    assert forall|item: EvidenceView| #[trigger]
        target.key_evidence.contains(item) && item.role
            != EvidenceRole::Context implies result::key_evidence_of(
        run_evidence + kept,
    ).contains(item) by {
        assert((run_evidence + kept).contains(item));
    }
}

spec fn is_kept(target: TargetDiagnosticView, kept: Seq<EvidenceView>) -> bool {
    forall|item: EvidenceView| #[trigger]
        target.key_evidence.contains(item) ==> kept.contains(item)
}

spec fn kept_for(
    targets: Seq<TargetDiagnosticView>,
    place: int,
    other: int,
    kept: Seq<EvidenceView>,
) -> bool {
    &&& 0 <= place < targets.len()
    &&& alike(targets[place], targets[other])
    &&& is_kept(targets[place], kept)
}

proof fn lemma_representative(targets: Seq<TargetDiagnosticView>, place: int) -> (other: int)
    requires
        0 <= place < targets.len(),
    ensures
        kept_for(targets, other, place, result::representative_evidence(targets)),
    decreases targets.len(),
{
    let front = targets.drop_last();
    let before = result::representative_evidence(front);
    let now = result::representative_evidence(targets);
    lemma_joined_contains(before, targets.last().key_evidence);
    assert(is_subset(before, now));
    let repeated = exists|k: int|
        0 <= k < front.len() && result::same_result(#[trigger] front[k], targets.last());
    if place < front.len() {
        let other = lemma_representative(front, place);
        lemma_kept_longer(targets, front, other, place, place, before, now);
        other
    } else if repeated {
        let k = choose|k: int|
            0 <= k < front.len() && result::same_result(#[trigger] front[k], targets.last());
        let other = lemma_representative(front, k);
        lemma_kept_longer(targets, front, other, k, place, before, now);
        other
    } else {
        place
    }
}

proof fn lemma_representatives_come_from_targets(targets: Seq<TargetDiagnosticView>)
    ensures
        forall|item: EvidenceView| #[trigger]
            result::representative_evidence(targets).contains(item) ==> exists|i: int|
                0 <= i < targets.len() && (#[trigger] targets[i]).key_evidence.contains(item),
    decreases targets.len(),
{
    if targets.len() > 0 {
        let front = targets.drop_last();
        let last = targets.len() - 1;
        let before = result::representative_evidence(front);
        let now = result::representative_evidence(targets);
        lemma_representatives_come_from_targets(front);
        lemma_joined_contains(before, targets.last().key_evidence);
        assert forall|item: EvidenceView| #[trigger] now.contains(item) implies exists|i: int|
            0 <= i < targets.len() && (#[trigger] targets[i]).key_evidence.contains(item) by {
            if before.contains(item) {
                let i = choose|i: int|
                    0 <= i < front.len() && (#[trigger] front[i]).key_evidence.contains(item);
                assert(targets[i].key_evidence.contains(item));
            } else {
                assert(targets[last].key_evidence.contains(item));
            }
        }
    }
}

spec fn is_subset(smaller: Seq<EvidenceView>, larger: Seq<EvidenceView>) -> bool {
    forall|item: EvidenceView| #[trigger] smaller.contains(item) ==> larger.contains(item)
}

proof fn lemma_kept_longer(
    targets: Seq<TargetDiagnosticView>,
    front: Seq<TargetDiagnosticView>,
    place: int,
    middle: int,
    other: int,
    before: Seq<EvidenceView>,
    now: Seq<EvidenceView>,
)
    requires
        targets.len() > 0,
        front == targets.drop_last(),
        0 <= middle < front.len(),
        kept_for(front, place, middle, before),
        alike(front[middle], targets[other]),
        is_subset(before, now),
    ensures
        kept_for(targets, place, other, now),
{
    assert(front[place] == targets[place]);
    assert(is_kept(front[place], before));
}

} // verus!
