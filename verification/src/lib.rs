//! Platform-independent contracts and deterministic diagnostic semantics of Reach, a command that
//! checks whether an address or a TCP port can be reached.
//!
//! The library holds no input and output of its own. [`engine`] decides which network operation
//! comes next and what its answer means; a program around the library carries the operations out
//! and hands the answers back. [`presentation`] turns a result into a report.

pub mod capability;
pub mod engine;
pub mod exit;
pub mod formation;
pub mod input;
pub mod io;
pub mod lists;
pub mod model;
pub mod net;
pub mod number;
pub mod path;
pub mod path_laws;
pub mod policy;
pub mod presentation;
pub mod request_laws;
pub mod result;
pub mod result_laws;
pub mod sorting;
pub mod text;
pub mod time;

pub use capability::{CapabilityReason, CapabilityValue, Provenance, ProvenanceSource};
pub use exit::{apply_cancellation_priority, status_after_write_failure};
pub use formation::{bind_diagnostic_request, form_literal_target, ScopeBindingError};
pub use input::{
    parse_request, BoundAddressInput, DiagnosticRequest, Hostname, InputError, ParsedAddress,
    ParsedRequest, ScopeSyntax,
};
pub use io::{
    DiagnosticIoError, DiagnosticIoErrorKind, DirectDnsOperation, DirectDnsTransportReason,
    IcmpEchoSubject, IcmpOperation, PathOperation, TcpOperation,
};
pub use model::{
    stable_deduplicate_targets, AddressFamily, Attempt, AttemptId, AttemptKind, AttemptOutcome,
    AttemptSubject, AttemptTiming, DnsAttemptResult, DnsExchangeObservation, DnsExchangeOutcome,
    DnsExchangePurpose, DnsExchangeTransport, DnsQueryType, DnsResponseCode, FormalTarget,
    IcmpAttemptResult, IcmpMessageKind, IcmpMessageObservation, IcmpNativeStatus,
    InitialNetworkSnapshot, InterfaceAddress, InterfaceFact, InterfaceId, InterfaceState,
    IpEndpoint, NameResolutionObservation, NameResolutionSource, NameResolutionStep,
    NameResolutionStepOutcome, NeighborFact, NeighborIdentity, NeighborState, OperationPathContext,
    PathRelation, PathSelectionFact, ResolverAddressSet, ResolverConfiguration, ResolverEndpoint,
    ResolverTransport, RouteBehavior, RouteFact, RoutingPolicyFacts, SnapshotInconsistency,
    SnapshotInconsistencyScope, SystemResolverFailure, SystemResolverFailureKind,
    SystemResolverObservation, SystemResolverResult, TargetIp, TcpAttemptResult,
};
pub use net::{IpAddr, IpNet, Ipv4Addr, Ipv6Addr, SocketAddr};
pub use number::{NonZeroU16, NonZeroU32};
pub use path::{
    analyze_initial_path, neighbor_dependency_for_path, reconcile_current_operation_path,
    InitialPathAnalysis, InitialPathStatus, NeighborDependency,
};
pub use policy::{
    DNS_TCP_BUDGET, DNS_UDP_BUDGET, MAX_ACTIVE_RESOLVERS, MAX_ACTIVE_TARGETS, MAX_PATH_HOP_LIMIT,
    NEIGHBOR_CONVERGENCE_BUDGET, NEIGHBOR_POLL_INTERVAL, NEXT_HOP_ICMP_BUDGET, PATH_ATTEMPT_BUDGET,
    TARGET_ICMP_BUDGET, TCP_CONNECT_BUDGET,
};
pub use result::{
    select_key_evidence, AggregateOutcome, Cancelled, CompletedDiagnostic, Conclusion,
    DiagnosticResult, DnsExchangeEvidence, Evidence, EvidenceFact, EvidenceId, EvidenceRole,
    EvidenceSubject, ExecutionError, ExecutionErrorKind, ExitStatus, HostnameResolutionOutcome,
    NameResolutionEvidence, NameResolutionEvidenceOutcome, NeighborObservation, PrimaryOutcome,
    ResolverDependencyDiagnostic, TargetDiagnostic, TargetNetworkFacts,
};
pub use time::Duration;
