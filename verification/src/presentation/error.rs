//! Reports on checks that did not finish, on input that could not be read and on commands that
//! were not understood.

use vstd::prelude::*;

use crate::capability::{CapabilityReason, CapabilityReasonView};
use crate::input::InputError;
use crate::model::NeighborState;
use crate::presentation::name_resolution::{
    self, dns_query_type_label, formal_exchange_summary, name_resolution_outcome_label,
};
use crate::presentation::safety;
use crate::presentation::{
    self, blank, bullets, field, fill_line, headline, paragraph, section, terminal_escape, Theme,
    Tint,
};
use crate::result::{
    Cancelled, CancelledView, DnsExchangeEvidence, DnsExchangeEvidenceView, Evidence, EvidenceFact,
    EvidenceFactView, EvidenceView, ExecutionError, ExecutionErrorKind, ExecutionErrorView,
    NeighborObservation,
};
use crate::text;

verus! {

/// What went wrong, in plain words.
pub open spec fn explanation_text(kind: ExecutionErrorKind) -> Seq<char> {
    match kind {
        ExecutionErrorKind::InvalidInput => "Reach could not understand the requested address or TCP port."@,
        ExecutionErrorKind::ScopedIpv6BindingFailed => "Reach could not match the IPv6 scope to a local network interface."@,
        ExecutionErrorKind::RequiredCapabilityUnavailable => "This system cannot perform a check that is required for a reliable answer."@,
        ExecutionErrorKind::ResourceExhausted => "This computer ran out of local networking resources before Reach could finish."@,
        ExecutionErrorKind::InternalFailure => "Reach encountered an internal or operating-system error before it could produce a reliable answer."@,
    }
}

fn execution_explanation(kind: ExecutionErrorKind) -> (result: &'static str)
    ensures
        result@ == explanation_text(kind),
        text::inert(result@),
{
    proof {
        reveal_strlit("Reach could not understand the requested address or TCP port.");
        reveal_strlit("Reach could not match the IPv6 scope to a local network interface.");
        reveal_strlit("This system cannot perform a check that is required for a reliable answer.");
        reveal_strlit("This computer ran out of local networking resources before Reach could finish.");
        reveal_strlit("Reach encountered an internal or operating-system error before it could produce a reliable answer.");
    }
    match kind {
        ExecutionErrorKind::InvalidInput => "Reach could not understand the requested address or TCP port.",
        ExecutionErrorKind::ScopedIpv6BindingFailed => "Reach could not match the IPv6 scope to a local network interface.",
        ExecutionErrorKind::RequiredCapabilityUnavailable => "This system cannot perform a check that is required for a reliable answer.",
        ExecutionErrorKind::ResourceExhausted => "This computer ran out of local networking resources before Reach could finish.",
        ExecutionErrorKind::InternalFailure => "Reach encountered an internal or operating-system error before it could produce a reliable answer.",
    }
}

/// The name of a kind of error.
pub open spec fn type_text(kind: ExecutionErrorKind) -> Seq<char> {
    match kind {
        ExecutionErrorKind::InvalidInput => "Invalid input"@,
        ExecutionErrorKind::ScopedIpv6BindingFailed => "IPv6 scope binding failed"@,
        ExecutionErrorKind::RequiredCapabilityUnavailable => "Required capability unavailable"@,
        ExecutionErrorKind::ResourceExhausted => "Local resources exhausted"@,
        ExecutionErrorKind::InternalFailure => "Internal execution failure"@,
    }
}

fn execution_type(kind: ExecutionErrorKind) -> (result: &'static str)
    ensures
        result@ == type_text(kind),
        text::inert(result@),
{
    proof {
        reveal_strlit("Invalid input");
        reveal_strlit("IPv6 scope binding failed");
        reveal_strlit("Required capability unavailable");
        reveal_strlit("Local resources exhausted");
        reveal_strlit("Internal execution failure");
    }
    match kind {
        ExecutionErrorKind::InvalidInput => "Invalid input",
        ExecutionErrorKind::ScopedIpv6BindingFailed => "IPv6 scope binding failed",
        ExecutionErrorKind::RequiredCapabilityUnavailable => "Required capability unavailable",
        ExecutionErrorKind::ResourceExhausted => "Local resources exhausted",
        ExecutionErrorKind::InternalFailure => "Internal execution failure",
    }
}

/// What to try first.
pub open spec fn first_action_text(kind: ExecutionErrorKind) -> Seq<char> {
    match kind {
        ExecutionErrorKind::InvalidInput => "Check the address and optional TCP port, then run the command again."@,
        ExecutionErrorKind::ScopedIpv6BindingFailed => "Check that the interface name or index after % still exists on this computer."@,
        ExecutionErrorKind::RequiredCapabilityUnavailable => "Read the technical reason below; this check cannot be replaced with a different protocol without changing its meaning."@,
        ExecutionErrorKind::ResourceExhausted => "Close applications that are using many network connections, then run the check again."@,
        ExecutionErrorKind::InternalFailure => "Run the same command once more."@,
    }
}

fn first_action(kind: ExecutionErrorKind) -> (result: &'static str)
    ensures
        result@ == first_action_text(kind),
        text::inert(result@),
{
    proof {
        reveal_strlit("Check the address and optional TCP port, then run the command again.");
        reveal_strlit("Check that the interface name or index after % still exists on this computer.");
        reveal_strlit("Read the technical reason below; this check cannot be replaced with a different protocol without changing its meaning.");
        reveal_strlit("Close applications that are using many network connections, then run the check again.");
        reveal_strlit("Run the same command once more.");
    }
    match kind {
        ExecutionErrorKind::InvalidInput => "Check the address and optional TCP port, then run the command again.",
        ExecutionErrorKind::ScopedIpv6BindingFailed => "Check that the interface name or index after % still exists on this computer.",
        ExecutionErrorKind::RequiredCapabilityUnavailable => "Read the technical reason below; this check cannot be replaced with a different protocol without changing its meaning.",
        ExecutionErrorKind::ResourceExhausted => "Close applications that are using many network connections, then run the check again.",
        ExecutionErrorKind::InternalFailure => "Run the same command once more.",
    }
}

/// What to do where the first action did not help.
pub open spec fn second_action_text(kind: ExecutionErrorKind) -> Seq<char> {
    match kind {
        ExecutionErrorKind::InvalidInput => "Run reach --help to see accepted input examples."@,
        ExecutionErrorKind::ScopedIpv6BindingFailed => "Run the command again with the correct scope, for example fe80::1%12."@,
        ExecutionErrorKind::RequiredCapabilityUnavailable => "Send this report to your support team if the required capability should be available on this computer."@,
        ExecutionErrorKind::ResourceExhausted => "If the problem continues, send this report to your support team."@,
        ExecutionErrorKind::InternalFailure => "If it fails again, send this entire report and the command you used to the Reach maintainer or your support team."@,
    }
}

fn second_action(kind: ExecutionErrorKind) -> (result: &'static str)
    ensures
        result@ == second_action_text(kind),
        text::inert(result@),
{
    proof {
        reveal_strlit("Run reach --help to see accepted input examples.");
        reveal_strlit("Run the command again with the correct scope, for example fe80::1%12.");
        reveal_strlit("Send this report to your support team if the required capability should be available on this computer.");
        reveal_strlit("If the problem continues, send this report to your support team.");
        reveal_strlit("If it fails again, send this entire report and the command you used to the Reach maintainer or your support team.");
    }
    match kind {
        ExecutionErrorKind::InvalidInput => "Run reach --help to see accepted input examples.",
        ExecutionErrorKind::ScopedIpv6BindingFailed => "Run the command again with the correct scope, for example fe80::1%12.",
        ExecutionErrorKind::RequiredCapabilityUnavailable => "Send this report to your support team if the required capability should be available on this computer.",
        ExecutionErrorKind::ResourceExhausted => "If the problem continues, send this report to your support team.",
        ExecutionErrorKind::InternalFailure => "If it fails again, send this entire report and the command you used to the Reach maintainer or your support team.",
    }
}

/// What a reader can do about an error.
pub open spec fn action_texts(kind: ExecutionErrorKind) -> Seq<Seq<char>> {
    seq![first_action_text(kind), second_action_text(kind)]
}

fn execution_actions(kind: ExecutionErrorKind) -> (result: Vec<String>)
    ensures
        result.deep_view() == action_texts(kind),
        text::all_inert(result.deep_view()),
{
    text::list2(first_action(kind), second_action(kind))
}

/// What the neighbor table says.
pub open spec fn neighbor_text(value: NeighborState) -> Seq<char> {
    match value {
        NeighborState::Absent => "absent"@,
        NeighborState::Resolving => "resolving"@,
        NeighborState::Usable => "usable"@,
        NeighborState::TerminalFailure => "terminal failure"@,
        NeighborState::Unknown => "unknown"@,
    }
}

fn neighbor_state(value: NeighborState) -> (result: &'static str)
    ensures
        result@ == neighbor_text(value),
        text::inert(result@),
{
    proof {
        reveal_strlit("absent");
        reveal_strlit("resolving");
        reveal_strlit("usable");
        reveal_strlit("terminal failure");
        reveal_strlit("unknown");
    }
    match value {
        NeighborState::Absent => "absent",
        NeighborState::Resolving => "resolving",
        NeighborState::Usable => "usable",
        NeighborState::TerminalFailure => "terminal failure",
        NeighborState::Unknown => "unknown",
    }
}

/// What the neighbor table said before an operation.
pub open spec fn neighbor_before_text(value: NeighborObservation) -> Seq<char> {
    match value {
        NeighborObservation::NotSampled => "not observed"@,
        NeighborObservation::Observed(NeighborState::Absent) => "absent"@,
        NeighborObservation::Observed(NeighborState::Resolving) => "resolving"@,
        NeighborObservation::Observed(NeighborState::Usable) => "usable"@,
        NeighborObservation::Observed(NeighborState::TerminalFailure) => "terminal failure"@,
        NeighborObservation::Observed(NeighborState::Unknown) => "unknown"@,
        NeighborObservation::Unknown => "unknown"@,
        NeighborObservation::Unavailable => "unavailable"@,
    }
}

fn neighbor_observation(value: NeighborObservation) -> (result: &'static str)
    ensures
        result@ == neighbor_before_text(value),
        text::inert(result@),
{
    proof {
        reveal_strlit("not observed");
        reveal_strlit("absent");
        reveal_strlit("resolving");
        reveal_strlit("usable");
        reveal_strlit("terminal failure");
        reveal_strlit("unknown");
        reveal_strlit("unavailable");
    }
    match value {
        NeighborObservation::NotSampled => "not observed",
        NeighborObservation::Observed(NeighborState::Absent) => "absent",
        NeighborObservation::Observed(NeighborState::Resolving) => "resolving",
        NeighborObservation::Observed(NeighborState::Usable) => "usable",
        NeighborObservation::Observed(NeighborState::TerminalFailure) => "terminal failure",
        NeighborObservation::Observed(NeighborState::Unknown) => "unknown",
        NeighborObservation::Unknown => "unknown",
        NeighborObservation::Unavailable => "unavailable",
    }
}

/// Why a capability was not there, in plain words.
pub open spec fn reason_text(value: CapabilityReasonView) -> Seq<char> {
    match value {
        CapabilityReasonView::NotExposedByOperatingSystem => "not exposed by the operating system"@,
        CapabilityReasonView::OrdinaryUserPermissionDenied => "ordinary-user permission was denied"@,
        CapabilityReasonView::SnapshotInconsistent => "the network snapshot changed during capture"@,
        CapabilityReasonView::QuerySemanticsUnavailable =>
            "the required read-only query is unavailable"@,
        CapabilityReasonView::AttemptCorrelationUnavailable =>
            "responses cannot be correlated reliably to their attempt"@,
        CapabilityReasonView::UnsupportedEnvironment => "the current environment is unsupported"@,
        CapabilityReasonView::Other(value) => presentation::terminal_text(value),
    }
}

fn capability_reason(value: &CapabilityReason) -> (result: String)
    ensures
        result@ == reason_text(value.deep_view()),
        text::inert(result@),
{
    proof {
        reveal_strlit("not exposed by the operating system");
        reveal_strlit("ordinary-user permission was denied");
        reveal_strlit("the network snapshot changed during capture");
        reveal_strlit("the required read-only query is unavailable");
        reveal_strlit("responses cannot be correlated reliably to their attempt");
        reveal_strlit("the current environment is unsupported");
    }
    match value {
        CapabilityReason::NotExposedByOperatingSystem =>
            "not exposed by the operating system".to_owned(),
        CapabilityReason::OrdinaryUserPermissionDenied =>
            "ordinary-user permission was denied".to_owned(),
        CapabilityReason::SnapshotInconsistent =>
            "the network snapshot changed during capture".to_owned(),
        CapabilityReason::QuerySemanticsUnavailable =>
            "the required read-only query is unavailable".to_owned(),
        CapabilityReason::AttemptCorrelationUnavailable =>
            "responses cannot be correlated reliably to their attempt".to_owned(),
        CapabilityReason::UnsupportedEnvironment =>
            "the current environment is unsupported".to_owned(),
        CapabilityReason::Other(value) => terminal_escape(value.as_str()),
    }
}

/// What one fact says that was collected before an error.
pub open spec fn fact_text(fact: EvidenceFactView) -> Seq<char> {
    match fact {
        EvidenceFactView::Attempt(id) => "Attempt A"@ + text::decimal(id.0 as nat)
            + " completed before the error"@,
        EvidenceFactView::InitialPath(value) => "Initial path: "@ + presentation::terminal_text(
            value,
        ),
        EvidenceFactView::CurrentPath(value) => "Current path: "@ + presentation::terminal_text(
            value,
        ),
        EvidenceFactView::NeighborTransition { before, after } => "Neighbor: "@
            + neighbor_before_text(before) + " -> "@ + neighbor_text(after),
        EvidenceFactView::SystemResolverResult(value) => "System DNS: "@
            + presentation::terminal_text(value),
        EvidenceFactView::DirectDnsResult(value) => "Direct DNS diagnostic: "@
            + presentation::terminal_text(value),
        EvidenceFactView::NameResolution(value) => "Name resolution: "@
            + name_resolution::outcome_text(value.outcome),
        EvidenceFactView::DnsExchange(DnsExchangeEvidenceView::Formal(exchange)) => "Formal DNS "@
            + name_resolution::query_type_text(exchange.query_type) + " exchange: "@
            + name_resolution::exchange_summary(exchange),
        EvidenceFactView::DnsExchange(DnsExchangeEvidenceView::Diagnostic(id)) =>
            "Direct DNS attempt A"@ + text::decimal(id.0 as nat) + " completed before the error"@,
        EvidenceFactView::CapabilityUnavailable { capability, reason } =>
            presentation::terminal_text(capability) + " unavailable: "@ + reason_text(reason),
        EvidenceFactView::SnapshotInconsistency(value) => "Snapshot changed: "@
            + presentation::terminal_text(value),
        EvidenceFactView::SocketPathComparison(value) => "Socket/path comparison: "@
            + presentation::terminal_text(value),
    }
}

fn partial_fact(fact: &EvidenceFact) -> (result: String)
    ensures
        result@ == fact_text(fact.deep_view()),
        text::inert(result@),
{
    proof {
        reveal_strlit("Attempt A");
        reveal_strlit(" completed before the error");
        reveal_strlit("Initial path: ");
        reveal_strlit("Current path: ");
        reveal_strlit("Neighbor: ");
        reveal_strlit(" -> ");
        reveal_strlit("System DNS: ");
        reveal_strlit("Direct DNS diagnostic: ");
        reveal_strlit("Name resolution: ");
        reveal_strlit("Formal DNS ");
        reveal_strlit(" exchange: ");
        reveal_strlit("Direct DNS attempt A");
        reveal_strlit(" unavailable: ");
        reveal_strlit("Snapshot changed: ");
        reveal_strlit("Socket/path comparison: ");
    }
    match fact {
        EvidenceFact::Attempt(id) => text::join3(
            "Attempt A",
            text::decimal_text(id.0).as_str(),
            " completed before the error",
        ),
        EvidenceFact::InitialPath(value) => text::join2(
            "Initial path: ",
            terminal_escape(value.as_str()).as_str(),
        ),
        EvidenceFact::CurrentPath(value) => text::join2(
            "Current path: ",
            terminal_escape(value.as_str()).as_str(),
        ),
        EvidenceFact::NeighborTransition { before, after } => text::join4(
            "Neighbor: ",
            neighbor_observation(*before),
            " -> ",
            neighbor_state(*after),
        ),
        EvidenceFact::SystemResolverResult(value) => text::join2(
            "System DNS: ",
            terminal_escape(value.as_str()).as_str(),
        ),
        EvidenceFact::DirectDnsResult(value) => text::join2(
            "Direct DNS diagnostic: ",
            terminal_escape(value.as_str()).as_str(),
        ),
        EvidenceFact::NameResolution(value) => text::join2(
            "Name resolution: ",
            name_resolution_outcome_label(value.outcome),
        ),
        EvidenceFact::DnsExchange(DnsExchangeEvidence::Formal(exchange)) => text::join4(
            "Formal DNS ",
            dns_query_type_label(exchange.query_type),
            " exchange: ",
            formal_exchange_summary(exchange).as_str(),
        ),
        EvidenceFact::DnsExchange(DnsExchangeEvidence::Diagnostic(id)) => text::join3(
            "Direct DNS attempt A",
            text::decimal_text(id.0).as_str(),
            " completed before the error",
        ),
        EvidenceFact::CapabilityUnavailable { capability, reason } => text::join3(
            terminal_escape(capability.as_str()).as_str(),
            " unavailable: ",
            capability_reason(reason).as_str(),
        ),
        EvidenceFact::SnapshotInconsistency(value) => text::join2(
            "Snapshot changed: ",
            terminal_escape(value.as_str()).as_str(),
        ),
        EvidenceFact::SocketPathComparison(value) => text::join2(
            "Socket/path comparison: ",
            terminal_escape(value.as_str()).as_str(),
        ),
    }
}

/// A report with the facts that were collected before an error, in order.
pub open spec fn with_partial_facts(
    report: Seq<char>,
    theme: Theme,
    evidence: Seq<EvidenceView>,
) -> Seq<char>
    decreases evidence.len(),
{
    if evidence.len() == 0 {
        report
    } else {
        presentation::with_field(
            with_partial_facts(report, theme, evidence.drop_last()),
            theme,
            "Partial fact"@,
            fact_text(evidence.last().fact),
        )
    }
}

fn partial_facts(output: &mut String, theme: Theme, evidence: &Vec<Evidence>)
    ensures
        final(output)@ == with_partial_facts(old(output)@, theme, evidence.deep_view()),
        safety::safe(old(output)@, theme.styled) ==> safety::safe(final(output)@, theme.styled),
{
    let ghost all = evidence.deep_view();
    let ghost before = output@;
    let mut i: usize = 0;
    while i < evidence.len()
        invariant
            i <= evidence.len(),
            all == evidence.deep_view(),
            output@ == with_partial_facts(before, theme, all.take(i as int)),
            safety::safe(before, theme.styled) ==> safety::safe(output@, theme.styled),
        decreases evidence.len() - i,
    {
        proof {
            reveal_strlit("Partial fact");
        }
        field(output, theme, "Partial fact", partial_fact(&evidence[i].fact).as_str());
        assert(all.take(i + 1).drop_last() =~= all.take(i as int));
        i += 1;
    }
    assert(all.take(i as int) =~= all);
}

/// The first lines of every error report: its title, and a paragraph that explains it.
pub open spec fn opening(
    theme: Theme,
    title: Seq<char>,
    tint: Tint,
    explanation: Seq<char>,
) -> Seq<char> {
    let report = presentation::with_headline(Seq::empty(), theme, title, tint);
    let report = presentation::with_paragraph(
        presentation::with_blank(report),
        theme,
        explanation,
    );
    presentation::with_blank(report)
}

fn open_report(theme: Theme, title: &str, tint: Tint, explanation: &str) -> (result: String)
    ensures
        result@ == opening(theme, title@, tint, explanation@),
        text::inert(title@) && text::inert(explanation@) ==> safety::safe(result@, theme.styled),
{
    let mut output = String::new();
    proof {
        safety::lemma_lined_is_safe(output@, theme.styled);
    }
    headline(&mut output, theme, title, tint);
    blank(&mut output);
    paragraph(&mut output, theme, explanation);
    blank(&mut output);
    output
}

/// A report with the section on what to do.
pub open spec fn with_actions(report: Seq<char>, theme: Theme, actions: Seq<Seq<char>>) -> Seq<
    char,
> {
    presentation::with_blank(
        presentation::with_bullets(
            presentation::with_section(report, theme, "WHAT TO DO"@),
            theme,
            actions,
        ),
    )
}

fn action_section(output: &mut String, theme: Theme, actions: &Vec<String>)
    ensures
        final(output)@ == with_actions(old(output)@, theme, actions.deep_view()),
        safety::safe(old(output)@, theme.styled) && text::all_inert(actions.deep_view())
            ==> safety::safe(final(output)@, theme.styled),
{
    proof {
        reveal_strlit("WHAT TO DO");
    }
    section(output, theme, "WHAT TO DO");
    bullets(output, theme, actions);
    blank(output);
}

/// A report with the title of its technical part.
pub open spec fn with_details(report: Seq<char>, theme: Theme) -> Seq<char> {
    presentation::with_section(report, theme, "TECHNICAL DETAILS"@)
}

/// A report with a field for text of unknown content.
pub open spec fn with_escaped_field(
    report: Seq<char>,
    theme: Theme,
    label: Seq<char>,
    value: Seq<char>,
) -> Seq<char> {
    presentation::with_field(report, theme, label, presentation::terminal_text(value))
}

fn escaped_field(output: &mut String, theme: Theme, label: &str, value: &str)
    ensures
        final(output)@ == with_escaped_field(old(output)@, theme, label@, value@),
        safety::safe(old(output)@, theme.styled) && text::inert(label@)
            ==> safety::safe(final(output)@, theme.styled),
{
    field(output, theme, label, terminal_escape(value).as_str());
}

/// The report on a check that failed.
pub open spec fn execution_report(error: ExecutionErrorView, theme: Theme) -> Seq<char> {
    let report = opening(
        theme,
        "× CHECK COULD NOT FINISH"@,
        Tint::Failure,
        explanation_text(error.kind),
    );
    let report = with_details(with_actions(report, theme, action_texts(error.kind)), theme);
    let report = presentation::with_field(report, theme, "Error type"@, type_text(error.kind));
    let report = with_escaped_field(report, theme, "Reason"@, error.safe_message);
    let report = with_partial_facts(report, theme, error.partial_evidence);
    presentation::with_field(report, theme, "Exit code"@, "2"@)
}

/// Writes the report on a check that failed.
pub fn render_execution(error: &ExecutionError, theme: Theme) -> (result: String)
    ensures
        result@ == execution_report(error.deep_view(), theme),
        safety::safe(result@, theme.styled),
{
    proof {
        reveal_strlit("× CHECK COULD NOT FINISH");
        reveal_strlit("TECHNICAL DETAILS");
        reveal_strlit("Error type");
        reveal_strlit("Reason");
        reveal_strlit("Exit code");
        reveal_strlit("2");
    }
    let mut output = open_report(
        theme,
        "× CHECK COULD NOT FINISH",
        Tint::Failure,
        execution_explanation(error.kind),
    );
    action_section(&mut output, theme, &execution_actions(error.kind));
    section(&mut output, theme, "TECHNICAL DETAILS");
    field(&mut output, theme, "Error type", execution_type(error.kind));
    escaped_field(&mut output, theme, "Reason", error.safe_message.as_str());
    partial_facts(&mut output, theme, &error.partial_evidence);
    field(&mut output, theme, "Exit code", "2");
    output
}

/// The report on a check that was interrupted.
pub open spec fn cancelled_report(cancelled: CancelledView, theme: Theme) -> Seq<char> {
    let report = opening(
        theme,
        "! CHECK CANCELLED"@,
        Tint::Warning,
        "Reach stopped because the check was interrupted. No final network result was produced."@,
    );
    let report = with_details(report, theme);
    let report = with_escaped_field(report, theme, "Reason"@, cancelled.safe_message);
    presentation::with_field(report, theme, "Exit code"@, "130"@)
}

/// Writes the report on a check that was interrupted.
pub fn render_cancelled(cancelled: &Cancelled, theme: Theme) -> (result: String)
    ensures
        result@ == cancelled_report(cancelled.deep_view(), theme),
        safety::safe(result@, theme.styled),
{
    proof {
        reveal_strlit("! CHECK CANCELLED");
        reveal_strlit("Reach stopped because the check was interrupted. No final network result was produced.");
        reveal_strlit("TECHNICAL DETAILS");
        reveal_strlit("Reason");
        reveal_strlit("Exit code");
        reveal_strlit("130");
    }
    let mut output = open_report(
        theme,
        "! CHECK CANCELLED",
        Tint::Warning,
        "Reach stopped because the check was interrupted. No final network result was produced.",
    );
    section(&mut output, theme, "TECHNICAL DETAILS");
    escaped_field(&mut output, theme, "Reason", cancelled.safe_message.as_str());
    field(&mut output, theme, "Exit code", "130");
    output
}

/// The title of the report on input that could not be read.
pub open spec fn input_title_text(error: InputError) -> Seq<char> {
    match error {
        InputError::EmptyAddress => "× ADDRESS IS MISSING"@,
        InputError::InvalidAddress => "× ADDRESS IS NOT VALID"@,
        InputError::InvalidIpv6Scope => "× IPV6 SCOPE IS NOT VALID"@,
        InputError::InvalidPortSyntax => "× TCP PORT IS NOT VALID"@,
        InputError::PortOutOfRange => "× TCP PORT IS OUT OF RANGE"@,
    }
}

fn input_title(error: InputError) -> (result: &'static str)
    ensures
        result@ == input_title_text(error),
        text::inert(result@),
{
    proof {
        reveal_strlit("× ADDRESS IS MISSING");
        reveal_strlit("× ADDRESS IS NOT VALID");
        reveal_strlit("× IPV6 SCOPE IS NOT VALID");
        reveal_strlit("× TCP PORT IS NOT VALID");
        reveal_strlit("× TCP PORT IS OUT OF RANGE");
    }
    match error {
        InputError::EmptyAddress => "× ADDRESS IS MISSING",
        InputError::InvalidAddress => "× ADDRESS IS NOT VALID",
        InputError::InvalidIpv6Scope => "× IPV6 SCOPE IS NOT VALID",
        InputError::InvalidPortSyntax => "× TCP PORT IS NOT VALID",
        InputError::PortOutOfRange => "× TCP PORT IS OUT OF RANGE",
    }
}

/// What is wrong with the input.
pub open spec fn input_explanation_text(error: InputError) -> Seq<char> {
    match error {
        InputError::EmptyAddress => "Reach needs a hostname or IP address before it can start a check."@,
        InputError::InvalidAddress => "Reach could not read the address as a hostname, IPv4 address, or IPv6 address."@,
        InputError::InvalidIpv6Scope => "A link-local IPv6 scope must identify one local network interface."@,
        InputError::InvalidPortSyntax => "The TCP port must contain digits only."@,
        InputError::PortOutOfRange => "A TCP port must be a number from 1 through 65535."@,
    }
}

fn input_explanation(error: InputError) -> (result: &'static str)
    ensures
        result@ == input_explanation_text(error),
        text::inert(result@),
{
    proof {
        reveal_strlit("Reach needs a hostname or IP address before it can start a check.");
        reveal_strlit("Reach could not read the address as a hostname, IPv4 address, or IPv6 address.");
        reveal_strlit("A link-local IPv6 scope must identify one local network interface.");
        reveal_strlit("The TCP port must contain digits only.");
        reveal_strlit("A TCP port must be a number from 1 through 65535.");
    }
    match error {
        InputError::EmptyAddress => "Reach needs a hostname or IP address before it can start a check.",
        InputError::InvalidAddress => "Reach could not read the address as a hostname, IPv4 address, or IPv6 address.",
        InputError::InvalidIpv6Scope => "A link-local IPv6 scope must identify one local network interface.",
        InputError::InvalidPortSyntax => "The TCP port must contain digits only.",
        InputError::PortOutOfRange => "A TCP port must be a number from 1 through 65535.",
    }
}

/// How to correct the input.
pub open spec fn input_action_text(error: InputError) -> Seq<char> {
    match error {
        InputError::EmptyAddress => "Enter a hostname, IPv4 address, or IPv6 address."@,
        InputError::InvalidAddress => "Remove prefixes such as http://, paths such as /login, and embedded ports such as :443."@,
        InputError::InvalidIpv6Scope => "Use an interface index or name after %, for example fe80::1%12."@,
        InputError::InvalidPortSyntax => "Use a number from 1 through 65535, for example 443."@,
        InputError::PortOutOfRange => "Correct the port number and run the check again."@,
    }
}

fn input_action(error: InputError) -> (result: &'static str)
    ensures
        result@ == input_action_text(error),
        text::inert(result@),
{
    proof {
        reveal_strlit("Enter a hostname, IPv4 address, or IPv6 address.");
        reveal_strlit("Remove prefixes such as http://, paths such as /login, and embedded ports such as :443.");
        reveal_strlit("Use an interface index or name after %, for example fe80::1%12.");
        reveal_strlit("Use a number from 1 through 65535, for example 443.");
        reveal_strlit("Correct the port number and run the check again.");
    }
    match error {
        InputError::EmptyAddress => "Enter a hostname, IPv4 address, or IPv6 address.",
        InputError::InvalidAddress => "Remove prefixes such as http://, paths such as /login, and embedded ports such as :443.",
        InputError::InvalidIpv6Scope => "Use an interface index or name after %, for example fe80::1%12.",
        InputError::InvalidPortSyntax => "Use a number from 1 through 65535, for example 443.",
        InputError::PortOutOfRange => "Correct the port number and run the check again.",
    }
}

/// A report with the section on how the command is used.
pub open spec fn with_usage(report: Seq<char>, theme: Theme) -> Seq<char> {
    let report = presentation::with_section(report, theme, "USAGE"@);
    let report = presentation::with_filled(
        report,
        theme,
        "reach <ADDRESS> [PORT]"@,
        "  "@,
        "  "@,
    );
    let report = presentation::with_blank(report);
    let report = presentation::with_filled(report, theme, "Examples:"@, "  "@, "  "@);
    let report = presentation::with_filled(report, theme, "reach example.com"@, "    "@, "    "@);
    let report = presentation::with_filled(
        report,
        theme,
        "reach example.com 443"@,
        "    "@,
        "    "@,
    );
    let report = presentation::with_filled(
        report,
        theme,
        "reach 192.0.2.10 22"@,
        "    "@,
        "    "@,
    );
    let report = presentation::with_filled(report, theme, "reach fe80::1%12"@, "    "@, "    "@);
    presentation::with_blank(report)
}

fn write_usage(output: &mut String, theme: Theme)
    ensures
        final(output)@ == with_usage(old(output)@, theme),
        safety::safe(old(output)@, theme.styled) ==> safety::safe(final(output)@, theme.styled),
{
    proof {
        reveal_strlit("USAGE");
        reveal_strlit("reach <ADDRESS> [PORT]");
        reveal_strlit("  ");
        reveal_strlit("Examples:");
        reveal_strlit("reach example.com");
        reveal_strlit("    ");
        reveal_strlit("reach example.com 443");
        reveal_strlit("reach 192.0.2.10 22");
        reveal_strlit("reach fe80::1%12");
    }
    section(output, theme, "USAGE");
    fill_line(output, theme, "reach <ADDRESS> [PORT]", "  ", "  ");
    blank(output);
    fill_line(output, theme, "Examples:", "  ", "  ");
    fill_line(output, theme, "reach example.com", "    ", "    ");
    fill_line(output, theme, "reach example.com 443", "    ", "    ");
    fill_line(output, theme, "reach 192.0.2.10 22", "    ", "    ");
    fill_line(output, theme, "reach fe80::1%12", "    ", "    ");
    blank(output);
}

/// The report on input that could not be read.
pub open spec fn input_report(
    error: InputError,
    address: Seq<char>,
    port: Option<Seq<char>>,
    theme: Theme,
) -> Seq<char> {
    let report = opening(
        theme,
        input_title_text(error),
        Tint::Failure,
        input_explanation_text(error),
    );
    let report = with_actions(report, theme, seq![input_action_text(error)]);
    let report = with_details(with_usage(report, theme), theme);
    let report = with_escaped_field(report, theme, "Address"@, address);
    let report = match port {
        Some(port) => with_escaped_field(report, theme, "Port"@, port),
        None => report,
    };
    presentation::with_field(report, theme, "Exit code"@, "2"@)
}

/// Writes the report on input that could not be read.
pub fn render_input(error: &InputError, address: &str, port: Option<&str>, theme: Theme) -> (result:
    String)
    ensures
        result@ == input_report(
            *error,
            address@,
            match port {
                Some(port) => Some(port@),
                None => None,
            },
            theme,
        ),
        safety::safe(result@, theme.styled),
{
    proof {
        reveal_strlit("TECHNICAL DETAILS");
        reveal_strlit("Address");
        reveal_strlit("Port");
        reveal_strlit("Exit code");
        reveal_strlit("2");
    }
    let mut output = open_report(
        theme,
        input_title(*error),
        Tint::Failure,
        input_explanation(*error),
    );
    action_section(&mut output, theme, &text::list1(input_action(*error)));
    write_usage(&mut output, theme);
    section(&mut output, theme, "TECHNICAL DETAILS");
    escaped_field(&mut output, theme, "Address", address);
    if let Some(port) = port {
        escaped_field(&mut output, theme, "Port", port);
    }
    field(&mut output, theme, "Exit code", "2");
    output
}

/// The report on a command that was not understood.
pub open spec fn command_report(missing_address: bool, theme: Theme) -> Seq<char> {
    let report = if missing_address {
        opening(
            theme,
            "× ADDRESS IS MISSING"@,
            Tint::Failure,
            "Reach needs a hostname or IP address before it can start a check."@,
        )
    } else {
        opening(
            theme,
            "× COMMAND IS NOT VALID"@,
            Tint::Failure,
            "Reach accepts one address and, optionally, one TCP port."@,
        )
    };
    presentation::with_field(
        with_details(with_usage(report, theme), theme),
        theme,
        "Exit code"@,
        "2"@,
    )
}

/// Writes the report on a command that was not understood.
pub fn render_command(missing_address: bool, theme: Theme) -> (result: String)
    ensures
        result@ == command_report(missing_address, theme),
        safety::safe(result@, theme.styled),
{
    proof {
        reveal_strlit("× ADDRESS IS MISSING");
        reveal_strlit("Reach needs a hostname or IP address before it can start a check.");
        reveal_strlit("× COMMAND IS NOT VALID");
        reveal_strlit("Reach accepts one address and, optionally, one TCP port.");
        reveal_strlit("TECHNICAL DETAILS");
        reveal_strlit("Exit code");
        reveal_strlit("2");
    }
    let mut output = if missing_address {
        open_report(
            theme,
            "× ADDRESS IS MISSING",
            Tint::Failure,
            "Reach needs a hostname or IP address before it can start a check.",
        )
    } else {
        open_report(
            theme,
            "× COMMAND IS NOT VALID",
            Tint::Failure,
            "Reach accepts one address and, optionally, one TCP port.",
        )
    };
    write_usage(&mut output, theme);
    section(&mut output, theme, "TECHNICAL DETAILS");
    field(&mut output, theme, "Exit code", "2");
    output
}

/// The report on a check that could not start.
pub open spec fn startup_report(reason: Seq<char>, theme: Theme) -> Seq<char> {
    let report = opening(
        theme,
        "× CHECK COULD NOT START"@,
        Tint::Failure,
        "Reach could not install the operating-system handler used to stop a running check safely."@,
    );
    let report = with_actions(
        report,
        theme,
        seq!["Close other copies of Reach, then run the command again."@],
    );
    let report = with_escaped_field(with_details(report, theme), theme, "Reason"@, reason);
    presentation::with_field(report, theme, "Exit code"@, "2"@)
}

/// Writes the report on a check that could not start.
pub fn render_startup(reason: &str, theme: Theme) -> (result: String)
    ensures
        result@ == startup_report(reason@, theme),
        safety::safe(result@, theme.styled),
{
    proof {
        reveal_strlit("× CHECK COULD NOT START");
        reveal_strlit("Reach could not install the operating-system handler used to stop a running check safely.");
        reveal_strlit("Close other copies of Reach, then run the command again.");
        reveal_strlit("TECHNICAL DETAILS");
        reveal_strlit("Reason");
        reveal_strlit("Exit code");
        reveal_strlit("2");
    }
    let mut output = open_report(
        theme,
        "× CHECK COULD NOT START",
        Tint::Failure,
        "Reach could not install the operating-system handler used to stop a running check safely.",
    );
    action_section(
        &mut output,
        theme,
        &text::list1("Close other copies of Reach, then run the command again."),
    );
    section(&mut output, theme, "TECHNICAL DETAILS");
    escaped_field(&mut output, theme, "Reason", reason);
    field(&mut output, theme, "Exit code", "2");
    output
}

/// The report on a report that could not be written.
pub open spec fn output_failure_report(reason: Seq<char>, theme: Theme) -> Seq<char> {
    let report = opening(
        theme,
        "× REPORT COULD NOT BE WRITTEN"@,
        Tint::Failure,
        "The network check finished, but Reach could not write the complete report to its output destination."@,
    );
    let report = with_escaped_field(with_details(report, theme), theme, "Reason"@, reason);
    presentation::with_field(report, theme, "Exit code"@, "2"@)
}

/// Writes the report on a report that could not be written.
pub fn render_output_failure(reason: &str, theme: Theme) -> (result: String)
    ensures
        result@ == output_failure_report(reason@, theme),
        safety::safe(result@, theme.styled),
{
    proof {
        reveal_strlit("× REPORT COULD NOT BE WRITTEN");
        reveal_strlit("The network check finished, but Reach could not write the complete report to its output destination.");
        reveal_strlit("TECHNICAL DETAILS");
        reveal_strlit("Reason");
        reveal_strlit("Exit code");
        reveal_strlit("2");
    }
    let mut output = open_report(
        theme,
        "× REPORT COULD NOT BE WRITTEN",
        Tint::Failure,
        "The network check finished, but Reach could not write the complete report to its output destination.",
    );
    section(&mut output, theme, "TECHNICAL DETAILS");
    escaped_field(&mut output, theme, "Reason", reason);
    field(&mut output, theme, "Exit code", "2");
    output
}

} // verus!
