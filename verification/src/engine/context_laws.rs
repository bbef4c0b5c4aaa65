//! What the path to a target, the answer of the system resolver and a failed operation lead to.

use vstd::prelude::*;

use crate::capability::CapabilityValueView;
use crate::engine::observation;
use crate::engine::run::{self, RunActionView, RunContextView, RunMachineView, RunProgressView};
use crate::formation;
use crate::input::{BoundAddressInputView, HostnameView, ParsedAddressView, ParsedRequestView};
use crate::io::{DiagnosticIoErrorKind, DiagnosticIoErrorView};
use crate::lists;
use crate::model::{
    AddressFamily, FormalTargetView, InitialNetworkSnapshotView, InterfaceFactView,
    OperationPathContextView, PathRelation, SystemResolverFailureKind,
    SystemResolverObservationView, SystemResolverResultView, TargetIpView,
};
use crate::net::IpAddr;
use crate::path::{self, InitialPathAnalysisView, InitialPathStatus, NeighborDependencyView};
use crate::result::{
    DiagnosticResultView, ExecutionErrorKind, HostnameResolutionOutcomeView,
    ResolverDependencyDiagnosticView, TargetDiagnostic,
};
use crate::sorting;

verus! {

/// The address that packets along a path are handed to first: the target itself where it is on
/// the link, and the next hop where it is not.
pub open spec fn first_stop(path: OperationPathContextView) -> Option<IpAddr> {
    if path.relation == PathRelation::OnLink {
        Some(path.target_or_dependency)
    } else if path.relation == PathRelation::Remote {
        path.next_hop
    } else {
        None
    }
}

/// A path depends on a neighbor exactly where packets leave this machine through a known
/// interface and it is known who takes them there; that is then the neighbor, with the family of
/// its own address. A path that does not leave the machine depends on none.
pub proof fn neighbors_stand_on_the_path(path: OperationPathContextView)
    ensures
        path::dependency_of(path) is NotApplicable <==> path.relation == PathRelation::Local,
        path::dependency_of(path) is Known <==> path.egress_interface is Some && first_stop(
            path,
        ) is Some,
        path::dependency_of(path) matches NeighborDependencyView::Known(identity) ==> {
            &&& path.egress_interface == Some(identity.interface)
            &&& first_stop(path) == Some(identity.address)
            &&& identity.family == AddressFamily::Ipv4 <==> identity.address is V4
        },
{
}

/// Where the current path could not be observed, nothing is known of the neighbor on it, not even
/// that there is none.
pub proof fn unobserved_paths_leave_the_neighbor_open(
    current: CapabilityValueView<OperationPathContextView>,
)
    ensures
        match current {
            CapabilityValueView::Available { value, .. } => observation::current_dependency(current)
                == path::dependency_of(value),
            _ => observation::current_dependency(current) is Unknown,
        },
{
}

/// Whether an interface is the only one with an index.
pub open spec fn is_the_one(
    interfaces: Seq<InterfaceFactView>,
    index: u32,
    place: int,
) -> bool {
    &&& 0 <= place < interfaces.len()
    &&& interfaces[place].id.index == index
    &&& forall|i: int|
        0 <= i < interfaces.len() && (#[trigger] interfaces[i]).id.index == index ==> i == place
}

/// A current path stays what it is when it is set against the snapshot, but that its interface
/// takes the identity that the snapshot has for its index, where it has just one. It is called
/// consistent exactly where the snapshot decided the path and both agree on interface, relation
/// and next hop.
pub proof fn reconciliation_keeps_the_current_path(
    current: OperationPathContextView,
    initial: InitialPathAnalysisView,
    interfaces: CapabilityValueView<Seq<InterfaceFactView>>,
    place: int,
)
    ensures
        ({
            let after = path::reconciled(current, initial, interfaces);
            &&& after.target_or_dependency == current.target_or_dependency
            &&& after.family == current.family
            &&& after.relation == current.relation
            &&& after.next_hop == current.next_hop
            &&& after.preferred_source == current.preferred_source
            &&& after.captured_at == current.captured_at
            &&& after.provenance == current.provenance
            &&& after.egress_interface is Some <==> current.egress_interface is Some
            &&& current.egress_interface matches Some(id) ==> {
                &&& after.egress_interface->Some_0.index == id.index
                &&& !(interfaces is Available) ==> after.egress_interface == Some(id)
                &&& interfaces matches CapabilityValueView::Available { value, .. } ==> (is_the_one(
                    value,
                    id.index,
                    place,
                ) ==> after.egress_interface == Some(value[place].id))
            }
            &&& after.relation_to_initial_snapshot == Some("consistent with initial snapshot"@)
                <==> initial.status != InitialPathStatus::UnknownPath && after.egress_interface
                == initial.egress_interface && current.relation == initial.relation
                && current.next_hop == initial.next_hop
        }),
{
    lemma_relations_differ();
    if let CapabilityValueView::Available { value: known, .. } = interfaces {
        if let Some(id) = current.egress_interface {
            let keep = path::has_index(id.index);
            let found = known.filter(keep);
            lists::lemma_filter_contains(known, keep);
            if found.len() == 1 {
                assert(found.contains(found[0]));
            }
            if is_the_one(known, id.index, place) {
                lemma_single_filter(known, keep, place);
            }
        }
    }
}

proof fn lemma_relations_differ()
    ensures
        "consistent with initial snapshot"@
            != "initial path was unknown; current kernel dependency retained"@,
        "consistent with initial snapshot"@
            != "current kernel dependency differs from initial snapshot"@,
{
    reveal_strlit("consistent with initial snapshot");
    reveal_strlit("initial path was unknown; current kernel dependency retained");
    reveal_strlit("current kernel dependency differs from initial snapshot");
    assert("consistent with initial snapshot"@[1] == 'o');
    assert("initial path was unknown; current kernel dependency retained"@[1] == 'n');
    assert("current kernel dependency differs from initial snapshot"@[1] == 'u');
}

/// A filter that accepts a single item keeps just that one.
proof fn lemma_single_filter<A>(items: Seq<A>, keep: spec_fn(A) -> bool, place: int)
    requires
        0 <= place < items.len(),
        keep(items[place]),
        forall|i: int| 0 <= i < items.len() && keep(#[trigger] items[i]) ==> i == place,
    ensures
        items.filter(keep) == seq![items[place]],
    decreases items.len(),
{
    reveal(Seq::filter);
    let rest = items.drop_last();
    assert forall|i: int| 0 <= i < rest.len() implies #[trigger] rest[i] == items[i] by {}
    if place == items.len() - 1 {
        lemma_empty_filter(rest, keep);
        assert(items.filter(keep) =~= seq![items[place]]);
    } else {
        assert(!keep(items[items.len() - 1]));
        lemma_single_filter(rest, keep, place);
    }
}

proof fn lemma_empty_filter<A>(items: Seq<A>, keep: spec_fn(A) -> bool)
    requires
        forall|i: int| 0 <= i < items.len() ==> !keep(#[trigger] items[i]),
    ensures
        items.filter(keep).len() == 0,
    decreases items.len(),
{
    reveal(Seq::filter);
    if items.len() > 0 {
        let rest = items.drop_last();
        assert forall|i: int| 0 <= i < rest.len() implies !keep(#[trigger] rest[i]) by {
            assert(rest[i] == items[i]);
        }
        assert(!keep(items[items.len() - 1]));
        lemma_empty_filter(rest, keep);
    }
}

/// What the answer of the system resolver is called: a success exactly where it gave an address to
/// check, a definitive negative exactly where the name does not exist, and a failure without a
/// definite answer where neither it nor its addresses are ruled out. Only a success leaves targets,
/// and these are its own.
pub proof fn resolver_answers_are_called_what_they_are(answer: SystemResolverResultView)
    ensures
        ({
            let (outcome, targets) = run::resolution_of(answer);
            match answer {
                SystemResolverResultView::Succeeded(addresses) => {
                    &&& targets == addresses.formal_targets
                    &&& if addresses.formal_targets.len() > 0 {
                        outcome == HostnameResolutionOutcomeView::Succeeded(addresses)
                    } else {
                        outcome is SucceededWithoutUsableAddress
                    }
                },
                SystemResolverResultView::Failed(failure) => {
                    &&& targets.len() == 0
                    &&& outcome is DefinitiveNegative <==> failure.kind
                        == SystemResolverFailureKind::DefinitiveNoName
                    &&& outcome is NegativeWithoutUsableAddress <==> failure.kind
                        == SystemResolverFailureKind::NoUsableAddress
                    &&& outcome is NonDefinitiveFailure <==> failure.kind
                        != SystemResolverFailureKind::DefinitiveNoName && failure.kind
                        != SystemResolverFailureKind::NoUsableAddress
                    &&& outcome matches HostnameResolutionOutcomeView::NonDefinitiveFailure {
                        platform_code,
                        direct_dns_was_diagnostic_only,
                    } ==> platform_code == failure.platform_code && !direct_dns_was_diagnostic_only
                    &&& outcome is DefinitiveNegative ==> outcome->DefinitiveNegative_platform_code
                        == failure.platform_code
                    &&& outcome is NegativeWithoutUsableAddress
                        ==> outcome->NegativeWithoutUsableAddress_platform_code
                        == failure.platform_code
                },
            }
        }),
{
    if let SystemResolverResultView::Succeeded(addresses) = answer {
        if addresses.formal_targets.len() == 0 {
            assert(addresses.formal_targets =~= Seq::empty());
        }
    }
}

/// A definite answer of the system resolver is not looked into: a run that it leaves nothing to
/// check for ends there, with that answer.
pub proof fn definite_answers_are_final(
    request: ParsedRequestView,
    snapshot: InitialNetworkSnapshotView,
    hostname: HostnameView,
    observation: SystemResolverObservationView,
)
    requires
        match observation.name_resolution.result {
            SystemResolverResultView::Succeeded(addresses) => addresses.formal_targets.len() == 0,
            SystemResolverResultView::Failed(failure) => failure.kind
                == SystemResolverFailureKind::DefinitiveNoName || failure.kind
                == SystemResolverFailureKind::NoUsableAddress,
        },
    ensures
        run::after_resolution(request, snapshot, hostname, observation, false) matches
            RunProgressView::Finished(DiagnosticResultView::Completed(completed)) && {
            &&& completed.targets.len() == 0
            &&& completed.resolver_diagnostics.len() == 0
            &&& completed.system_resolver == Some(observation)
            &&& completed.request == request
            &&& completed.hostname_resolution == run::resolution_of(
                observation.name_resolution.result,
            ).0
        },
{
    sorting::sorting_is_stable::<TargetDiagnostic>(Seq::empty());
}

/// A failed operation ends the run with an error of the same kind and the same message, unless it
/// or the run was cancelled.
pub proof fn errors_keep_their_kind(error: DiagnosticIoErrorView)
    ensures
        match run::stopped(error, false) {
            DiagnosticResultView::ExecutionError(reported) => {
                &&& reported.safe_message == error.safe_message
                &&& reported.kind == ExecutionErrorKind::RequiredCapabilityUnavailable
                    <==> error.kind == DiagnosticIoErrorKind::RequiredCapabilityUnavailable
                &&& reported.kind == ExecutionErrorKind::ResourceExhausted <==> error.kind
                    == DiagnosticIoErrorKind::ResourceExhausted
                &&& reported.kind == ExecutionErrorKind::InternalFailure <==> error.kind
                    == DiagnosticIoErrorKind::Internal
            },
            DiagnosticResultView::Cancelled(_) => error.kind == DiagnosticIoErrorKind::Cancelled,
            DiagnosticResultView::Completed(_) => false,
        },
        run::stopped(error, true) is Cancelled,
{
}

/// A run begins with the snapshot. A name is handed to the system resolver as it was given; a
/// literal whose scope stands for no interface ends the run with an error that says why.
pub proof fn runs_begin_with_the_snapshot(
    request: ParsedRequestView,
    snapshot: InitialNetworkSnapshotView,
)
    ensures
        run::run_started(request, false) == (RunProgressView::Pending {
            machine: RunMachineView::Capturing { request },
            action: RunActionView::CaptureSnapshot,
        }),
        run::run_started(request, true) matches RunProgressView::Finished(result) && result
            is Cancelled,
        match formation::bound_request(request, snapshot.interfaces) {
            Err(error) => run::after_snapshot(request, snapshot, false) matches
                RunProgressView::Finished(DiagnosticResultView::ExecutionError(reported))
                && reported.kind == ExecutionErrorKind::ScopedIpv6BindingFailed
                && reported.safe_message == error.shown(),
            Ok(_) => !(run::after_snapshot(request, snapshot, false) is Finished),
        },
        request.address matches ParsedAddressView::Hostname(hostname) ==> (run::after_snapshot(
            request,
            snapshot,
            false,
        ) matches RunProgressView::Pending { action, .. } && action == RunActionView::Resolve(
            hostname,
        )),
{
    if let Ok(bound) = formation::bound_request(request, snapshot.interfaces) {
        match bound.address {
            BoundAddressInputView::Ipv4Literal(target) => {
                lemma_targets_are_prepared(request, snapshot, target);
            },
            BoundAddressInputView::Ipv6Literal(target) => {
                lemma_targets_are_prepared(request, snapshot, target);
            },
            BoundAddressInputView::Hostname(_) => {},
        }
    }
}

proof fn lemma_targets_are_prepared(
    request: ParsedRequestView,
    snapshot: InitialNetworkSnapshotView,
    target: TargetIpView,
)
    ensures
        run::literal_context(request, snapshot).begin_targets(
            seq![FormalTargetView { target, resolver_ordinal: None }],
            false,
        ) is Pending,
{
    reveal_with_fuel(run::PreparationView::go_on, 3);
}

/// What resolvers showed is kept with the run, and so is whether any of them was asked at all. The
/// run ends with the failure that it looked into, and without a target.
pub proof fn what_resolvers_showed_is_kept(
    context: RunContextView,
    diagnostics: Seq<ResolverDependencyDiagnosticView>,
)
    requires
        context.hostname_resolution is NonDefinitiveFailure,
    ensures
        context.after_resolvers(diagnostics, false) matches RunProgressView::Finished(
            DiagnosticResultView::Completed(completed),
        ) && {
            &&& completed.resolver_diagnostics == diagnostics
            &&& completed.targets.len() == 0
            &&& completed.request == context.request
            &&& completed.hostname_resolution matches
                HostnameResolutionOutcomeView::NonDefinitiveFailure {
                platform_code,
                direct_dns_was_diagnostic_only,
            } && {
                &&& platform_code
                    == context.hostname_resolution->NonDefinitiveFailure_platform_code
                &&& direct_dns_was_diagnostic_only <==> exists|i: int|
                    0 <= i < diagnostics.len() && (#[trigger] diagnostics[i]).attempts.len() > 0
            }
        },
{
    sorting::sorting_is_stable::<TargetDiagnostic>(Seq::empty());
}

} // verus!
