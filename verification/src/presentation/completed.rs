//! The report on a completed check: its verdict, what was checked, what it means, what to do and
//! the evidence.

use vstd::prelude::*;

use crate::capability::{CapabilityReason, CapabilityReasonView};
use crate::model::{
    Attempt, AttemptId, AttemptKind, AttemptOutcome, AttemptOutcomeView, AttemptView,
    DnsAttemptResult, DnsAttemptResultView, DnsQueryType, DnsResponseCode, IcmpAttemptResult,
    IcmpAttemptResultView, IcmpMessageKind, IcmpMessageObservation, NameResolutionSource,
    NeighborState, TargetIp, TargetIpView, TcpAttemptResult, TcpAttemptResultView,
};
use crate::net::IpAddr;
use crate::number::NonZeroU16;
use crate::presentation::name_resolution::{
    self, diagnostic_dns_ran, distinct_endpoints, dns_attempt_response_label, dns_query_type_label,
    evidence_is_distinct, final_source, formal_exchange_summary, formal_exchanges,
    name_resolution_outcome_label, render_name_resolution_sections, server_field,
};
use crate::presentation::safety;
use crate::presentation::{
    self, blank, bullets, field, headline, human_duration, line, paragraph, section,
    terminal_escape, Theme, Tint,
};
use crate::result::{
    AggregateOutcome, CompletedDiagnostic, CompletedDiagnosticView, Conclusion,
    DnsExchangeEvidence, DnsExchangeEvidenceView, Evidence, EvidenceFact, EvidenceFactView,
    EvidenceSubject, EvidenceSubjectView, EvidenceView, HostnameResolutionOutcome,
    HostnameResolutionOutcomeView, NeighborObservation, PrimaryOutcome,
    ResolverDependencyDiagnostic, ResolverDependencyDiagnosticView, TargetDiagnostic,
    TargetDiagnosticView,
};
use crate::text;

verus! {

/// The width below which targets are listed instead of shown in a table.
pub const TABLE_WIDTH: usize = 60;

/// The width below which the table of targets has two columns.
pub const WIDE_TABLE_WIDTH: usize = 80;

/// The text of the table that `comfy_table` draws with its borders-only preset and round corners
/// for a header, rows and a width.
pub uninterp spec fn table_text(
    header: Seq<Seq<char>>,
    rows: Seq<Seq<Seq<char>>>,
    width: u16,
) -> Seq<char>;

/// A `comfy_table::Table` with the preset `UTF8_BORDERS_ONLY`, the modifier `UTF8_ROUND_CORNERS`,
/// dynamic content arrangement and a fixed width, written as text. No cell has a style, and the
/// terminal is not asked, so the text depends on the arguments alone: it is named [`table_text`].
/// How the columns are laid out is not stated. Of control characters the text holds line feeds and
/// those that a cell held.
#[verifier::external_body]
fn write_table(header: &Vec<String>, rows: &Vec<Vec<String>>, width: u16) -> (result: String)
    requires
        width >= 1,
    ensures
        result@ == table_text(header.deep_view(), rows.deep_view(), width),
        text::all_inert(header.deep_view()) && inert_cells(rows.deep_view()) ==> text::lined(
            result@,
        ),
{
    let mut table = comfy_table::Table::new();
    table
        .load_preset(comfy_table::presets::UTF8_BORDERS_ONLY)
        .apply_modifier(comfy_table::modifiers::UTF8_ROUND_CORNERS)
        .set_content_arrangement(comfy_table::ContentArrangement::Dynamic)
        .force_no_tty()
        .set_width(width)
        .set_header(header)
        .add_rows(rows);
    table.to_string()
}

fn count_text(count: usize) -> (result: String)
    ensures
        result@ == text::decimal(count as nat),
        text::inert(result@),
{
    text::decimal_text(count as u64)
}

/// The number of a hop as text.
pub open spec fn hop_text(hop_limit: u8) -> Seq<char> {
    text::decimal(hop_limit as nat)
}

fn write_hop(hop_limit: u8) -> (result: String)
    ensures
        result@ == hop_text(hop_limit),
        text::inert(result@),
{
    text::decimal_text(hop_limit as u64)
}

/// A port as text.
pub open spec fn port_text(port: NonZeroU16) -> Seq<char> {
    text::decimal(port.number() as nat)
}

fn write_port(port: NonZeroU16) -> (result: String)
    ensures
        result@ == port_text(port),
        text::inert(result@),
{
    text::decimal_text(port.get() as u64)
}

/// A destination as text: its address, its scope, and the port that is checked.
pub open spec fn target_text(target: TargetIpView, port: Option<NonZeroU16>) -> Seq<char> {
    let address = match target.scope {
        Some(scope) => target.address.shown() + "%"@ + text::decimal(scope.index as nat),
        None => target.address.shown(),
    };
    match port {
        Some(port) => match target.address {
            IpAddr::V6(_) => "["@ + address + "]:"@ + port_text(port),
            IpAddr::V4(_) => address + ":"@ + port_text(port),
        },
        None => address,
    }
}

fn target_label(target: &TargetIp, port: Option<NonZeroU16>) -> (result: String)
    ensures
        result@ == target_text(target.deep_view(), port),
        text::inert(result@),
{
    proof {
        reveal_strlit("%");
        reveal_strlit("[");
        reveal_strlit("]:");
        reveal_strlit(":");
    }
    let address = match &target.scope {
        Some(scope) => text::join3(
            target.address.to_text().as_str(),
            "%",
            text::decimal_text(scope.index as u64).as_str(),
        ),
        None => target.address.to_text(),
    };
    match port {
        Some(port) => {
            let number = write_port(port);
            match target.address {
                IpAddr::V6(_) => text::join4("[", address.as_str(), "]:", number.as_str()),
                IpAddr::V4(_) => text::join3(address.as_str(), ":", number.as_str()),
            }
        },
        None => address,
    }
}

/// The mark and the word for an outcome.
pub open spec fn status_text(outcome: PrimaryOutcome) -> Seq<char> {
    match outcome {
        PrimaryOutcome::Satisfied => "✓ PASS"@,
        PrimaryOutcome::SatisfiedWithAnomaly => "! RETRIED"@,
        PrimaryOutcome::NotSatisfied => "× FAILED"@,
        PrimaryOutcome::Indeterminate => "? INCONCLUSIVE"@,
    }
}

fn target_status(outcome: PrimaryOutcome) -> (result: &'static str)
    ensures
        result@ == status_text(outcome),
        text::inert(result@),
{
    proof {
        reveal_strlit("✓ PASS");
        reveal_strlit("! RETRIED");
        reveal_strlit("× FAILED");
        reveal_strlit("? INCONCLUSIVE");
    }
    match outcome {
        PrimaryOutcome::Satisfied => "✓ PASS",
        PrimaryOutcome::SatisfiedWithAnomaly => "! RETRIED",
        PrimaryOutcome::NotSatisfied => "× FAILED",
        PrimaryOutcome::Indeterminate => "? INCONCLUSIVE",
    }
}

/// What a conclusion says, in plain words.
pub open spec fn note_text(conclusion: Conclusion) -> Seq<char> {
    match conclusion {
        Conclusion::TcpConnectSucceeded => "TCP connection succeeded"@,
        Conclusion::TcpConnectSucceededAfterTimeout => "TCP connection succeeded only after an earlier timeout"@,
        Conclusion::TcpConnectionRefused => "TCP connection was explicitly refused"@,
        Conclusion::TcpExplicitFailure => "TCP connection failed with an explicit result"@,
        Conclusion::TcpConnectTimedOut => "TCP connection timed out twice"@,
        Conclusion::TcpTimedOutButTargetIcmpResponded => "TCP timed out, but the target IP replied to ICMP Echo"@,
        Conclusion::TcpTimedOutWithExplicitIcmpResult => "TCP timed out and ICMP returned an explicit result"@,
        Conclusion::IcmpEchoReplied => "ICMP Echo Reply received"@,
        Conclusion::IcmpEchoRepliedAfterTimeout => "ICMP Echo Reply received only after an earlier timeout"@,
        Conclusion::IcmpExplicitFailure => "ICMP returned an explicit failure result"@,
        Conclusion::IcmpEchoTimedOut => "ICMP Echo timed out twice"@,
        Conclusion::IcmpResponseIndeterminate => "ICMP response remained inconclusive"@,
        Conclusion::DefinitiveNoPath => "Snapshot path inference proved no usable path"@,
        Conclusion::NeighborResolutionFailed => "Required local Neighbor resolution failed"@,
        Conclusion::NeighborResolutionIndeterminate => "Required local Neighbor resolution remained inconclusive"@,
        Conclusion::FirstHopResponded => "The targeted first hop replied directly"@,
        Conclusion::MultiplePathRespondersObserved => "More than one responder was observed at the same path hop"@,
        Conclusion::PathEndpointResponded => "Later path diagnosis observed a correlated endpoint response; it does not erase the primary failure"@,
        Conclusion::PathExplicitlyTerminated => "Path diagnosis ended with a correlated explicit network error"@,
        Conclusion::PathResponseIndeterminate => "Path diagnosis received a correlated but inconclusive response"@,
        Conclusion::PathLimitReachedWithoutEndpointEvidence => "Path diagnosis reached its hop limit without endpoint evidence"@,
        Conclusion::HostnameResolved => "System name resolution produced destination addresses"@,
        Conclusion::HostnameNoFormalTargets => "System name resolution produced no usable destination address"@,
        Conclusion::HostnameResolutionDefinitiveNegative => "System name resolution returned a definitive negative answer"@,
        Conclusion::HostnameResolutionNoUsableAddress => "System name resolution returned no usable IPv4 or IPv6 address"@,
        Conclusion::HostnameResolutionIndeterminate => "System name resolution failed without a definitive answer"@,
        Conclusion::AllTargetsSatisfied => "Every address passed cleanly"@,
        Conclusion::TargetsSatisfiedWithAnomaly => "Every address eventually responded, with an earlier anomaly retained"@,
        Conclusion::TargetResultsMixed => "Different addresses produced different results"@,
        Conclusion::NoTargetCleanlySatisfied => "No address passed cleanly"@,
        Conclusion::CapabilityLimited => "The primary result is retained, but this system could not safely perform a deeper diagnostic step"@,
    }
}

/// The length of a note together with its eighteenth character tells it from every other note.
proof fn lemma_notes_differ(first: Conclusion, second: Conclusion)
    requires
        first != second,
    ensures
        note_text(first).len() != note_text(second).len() || note_text(first)[17] != note_text(
            second,
        )[17],
{
    reveal_strlit("TCP connection succeeded");
    reveal_strlit("TCP connection succeeded only after an earlier timeout");
    reveal_strlit("TCP connection was explicitly refused");
    reveal_strlit("TCP connection failed with an explicit result");
    reveal_strlit("TCP connection timed out twice");
    reveal_strlit("TCP timed out, but the target IP replied to ICMP Echo");
    reveal_strlit("TCP timed out and ICMP returned an explicit result");
    reveal_strlit("ICMP Echo Reply received");
    reveal_strlit("ICMP Echo Reply received only after an earlier timeout");
    reveal_strlit("ICMP returned an explicit failure result");
    reveal_strlit("ICMP Echo timed out twice");
    reveal_strlit("ICMP response remained inconclusive");
    reveal_strlit("Snapshot path inference proved no usable path");
    reveal_strlit("Required local Neighbor resolution failed");
    reveal_strlit("Required local Neighbor resolution remained inconclusive");
    reveal_strlit("The targeted first hop replied directly");
    reveal_strlit("More than one responder was observed at the same path hop");
    reveal_strlit("Later path diagnosis observed a correlated endpoint response; it does not erase the primary failure");
    reveal_strlit("Path diagnosis ended with a correlated explicit network error");
    reveal_strlit("Path diagnosis received a correlated but inconclusive response");
    reveal_strlit("Path diagnosis reached its hop limit without endpoint evidence");
    reveal_strlit("System name resolution produced destination addresses");
    reveal_strlit("System name resolution produced no usable destination address");
    reveal_strlit("System name resolution returned a definitive negative answer");
    reveal_strlit("System name resolution returned no usable IPv4 or IPv6 address");
    reveal_strlit("System name resolution failed without a definitive answer");
    reveal_strlit("Every address passed cleanly");
    reveal_strlit("Every address eventually responded, with an earlier anomaly retained");
    reveal_strlit("Different addresses produced different results");
    reveal_strlit("No address passed cleanly");
    reveal_strlit("The primary result is retained, but this system could not safely perform a deeper diagnostic step");
}

/// No note is empty, and none holds a `V`, a `D` behind its first character, or the letters `rma`.
proof fn lemma_note_letters(conclusion: Conclusion)
    ensures
        note_text(conclusion).len() > 0,
        forall|i: int|
            0 <= i < note_text(conclusion).len() ==> #[trigger] note_text(conclusion)[i] != 'V',
        forall|i: int|
            0 < i < note_text(conclusion).len() ==> #[trigger] note_text(conclusion)[i] != 'D',
        forall|i: int|
            0 <= i < note_text(conclusion).len() - 2 && #[trigger] note_text(conclusion)[i] == 'r'
                && note_text(conclusion)[i + 1] == 'm' ==> note_text(conclusion)[i + 2] != 'a',
{
    reveal_strlit("TCP connection succeeded");
    reveal_strlit("TCP connection succeeded only after an earlier timeout");
    reveal_strlit("TCP connection was explicitly refused");
    reveal_strlit("TCP connection failed with an explicit result");
    reveal_strlit("TCP connection timed out twice");
    reveal_strlit("TCP timed out, but the target IP replied to ICMP Echo");
    reveal_strlit("TCP timed out and ICMP returned an explicit result");
    reveal_strlit("ICMP Echo Reply received");
    reveal_strlit("ICMP Echo Reply received only after an earlier timeout");
    reveal_strlit("ICMP returned an explicit failure result");
    reveal_strlit("ICMP Echo timed out twice");
    reveal_strlit("ICMP response remained inconclusive");
    reveal_strlit("Snapshot path inference proved no usable path");
    reveal_strlit("Required local Neighbor resolution failed");
    reveal_strlit("Required local Neighbor resolution remained inconclusive");
    reveal_strlit("The targeted first hop replied directly");
    reveal_strlit("More than one responder was observed at the same path hop");
    reveal_strlit("Later path diagnosis observed a correlated endpoint response; it does not erase the primary failure");
    reveal_strlit("Path diagnosis ended with a correlated explicit network error");
    reveal_strlit("Path diagnosis received a correlated but inconclusive response");
    reveal_strlit("Path diagnosis reached its hop limit without endpoint evidence");
    reveal_strlit("System name resolution produced destination addresses");
    reveal_strlit("System name resolution produced no usable destination address");
    reveal_strlit("System name resolution returned a definitive negative answer");
    reveal_strlit("System name resolution returned no usable IPv4 or IPv6 address");
    reveal_strlit("System name resolution failed without a definitive answer");
    reveal_strlit("Every address passed cleanly");
    reveal_strlit("Every address eventually responded, with an earlier anomaly retained");
    reveal_strlit("Different addresses produced different results");
    reveal_strlit("No address passed cleanly");
    reveal_strlit("The primary result is retained, but this system could not safely perform a deeper diagnostic step");
}

/// Every conclusion has a note of its own, in plain words: none is empty, none speaks in the terms
/// of the implementation, and no two are the same.
pub proof fn notes_are_plain_and_distinct(conclusion: Conclusion, other: Conclusion)
    ensures
        note_text(conclusion).len() > 0,
        !text::mentions(note_text(conclusion), "formal"@),
        !text::mentions(note_text(conclusion), "CapabilityValue"@),
        !text::mentions(note_text(conclusion), "System DNS"@),
        conclusion != other ==> note_text(conclusion) != note_text(other),
{
    let note = note_text(conclusion);
    lemma_note_letters(conclusion);
    if conclusion != other {
        lemma_notes_differ(conclusion, other);
    }
    reveal_strlit("formal");
    reveal_strlit("CapabilityValue");
    reveal_strlit("System DNS");
    if text::mentions(note, "formal"@) {
        let i = choose|i: int|
            0 <= i <= note.len() - 6 && #[trigger] note.subrange(i, i + 6) == "formal"@;
        let found = note.subrange(i, i + 6);
        assert(found[2] == note[i + 2] && found[3] == note[i + 3] && found[4] == note[i + 4]);
    }
    if text::mentions(note, "CapabilityValue"@) {
        let i = choose|i: int|
            0 <= i <= note.len() - 15 && #[trigger] note.subrange(i, i + 15)
                == "CapabilityValue"@;
        let found = note.subrange(i, i + 15);
        assert(found[10] == note[i + 10]);
    }
    if text::mentions(note, "System DNS"@) {
        let i = choose|i: int|
            0 <= i <= note.len() - 10 && #[trigger] note.subrange(i, i + 10) == "System DNS"@;
        let found = note.subrange(i, i + 10);
        assert(found[7] == note[i + 7]);
    }
}

pub fn diagnostic_note(conclusion: Conclusion) -> (result: &'static str)
    ensures
        result@ == note_text(conclusion),
        text::inert(result@),
{
    proof {
        reveal_strlit("TCP connection succeeded");
        reveal_strlit("TCP connection succeeded only after an earlier timeout");
        reveal_strlit("TCP connection was explicitly refused");
        reveal_strlit("TCP connection failed with an explicit result");
        reveal_strlit("TCP connection timed out twice");
        reveal_strlit("TCP timed out, but the target IP replied to ICMP Echo");
        reveal_strlit("TCP timed out and ICMP returned an explicit result");
        reveal_strlit("ICMP Echo Reply received");
        reveal_strlit("ICMP Echo Reply received only after an earlier timeout");
        reveal_strlit("ICMP returned an explicit failure result");
        reveal_strlit("ICMP Echo timed out twice");
        reveal_strlit("ICMP response remained inconclusive");
        reveal_strlit("Snapshot path inference proved no usable path");
        reveal_strlit("Required local Neighbor resolution failed");
        reveal_strlit("Required local Neighbor resolution remained inconclusive");
        reveal_strlit("The targeted first hop replied directly");
        reveal_strlit("More than one responder was observed at the same path hop");
        reveal_strlit("Later path diagnosis observed a correlated endpoint response; it does not erase the primary failure");
        reveal_strlit("Path diagnosis ended with a correlated explicit network error");
        reveal_strlit("Path diagnosis received a correlated but inconclusive response");
        reveal_strlit("Path diagnosis reached its hop limit without endpoint evidence");
        reveal_strlit("System name resolution produced destination addresses");
        reveal_strlit("System name resolution produced no usable destination address");
        reveal_strlit("System name resolution returned a definitive negative answer");
        reveal_strlit("System name resolution returned no usable IPv4 or IPv6 address");
        reveal_strlit("System name resolution failed without a definitive answer");
        reveal_strlit("Every address passed cleanly");
        reveal_strlit("Every address eventually responded, with an earlier anomaly retained");
        reveal_strlit("Different addresses produced different results");
        reveal_strlit("No address passed cleanly");
        reveal_strlit("The primary result is retained, but this system could not safely perform a deeper diagnostic step");
    }
    match conclusion {
        Conclusion::TcpConnectSucceeded => "TCP connection succeeded",
        Conclusion::TcpConnectSucceededAfterTimeout => "TCP connection succeeded only after an earlier timeout",
        Conclusion::TcpConnectionRefused => "TCP connection was explicitly refused",
        Conclusion::TcpExplicitFailure => "TCP connection failed with an explicit result",
        Conclusion::TcpConnectTimedOut => "TCP connection timed out twice",
        Conclusion::TcpTimedOutButTargetIcmpResponded => "TCP timed out, but the target IP replied to ICMP Echo",
        Conclusion::TcpTimedOutWithExplicitIcmpResult => "TCP timed out and ICMP returned an explicit result",
        Conclusion::IcmpEchoReplied => "ICMP Echo Reply received",
        Conclusion::IcmpEchoRepliedAfterTimeout => "ICMP Echo Reply received only after an earlier timeout",
        Conclusion::IcmpExplicitFailure => "ICMP returned an explicit failure result",
        Conclusion::IcmpEchoTimedOut => "ICMP Echo timed out twice",
        Conclusion::IcmpResponseIndeterminate => "ICMP response remained inconclusive",
        Conclusion::DefinitiveNoPath => "Snapshot path inference proved no usable path",
        Conclusion::NeighborResolutionFailed => "Required local Neighbor resolution failed",
        Conclusion::NeighborResolutionIndeterminate => "Required local Neighbor resolution remained inconclusive",
        Conclusion::FirstHopResponded => "The targeted first hop replied directly",
        Conclusion::MultiplePathRespondersObserved => "More than one responder was observed at the same path hop",
        Conclusion::PathEndpointResponded => "Later path diagnosis observed a correlated endpoint response; it does not erase the primary failure",
        Conclusion::PathExplicitlyTerminated => "Path diagnosis ended with a correlated explicit network error",
        Conclusion::PathResponseIndeterminate => "Path diagnosis received a correlated but inconclusive response",
        Conclusion::PathLimitReachedWithoutEndpointEvidence => "Path diagnosis reached its hop limit without endpoint evidence",
        Conclusion::HostnameResolved => "System name resolution produced destination addresses",
        Conclusion::HostnameNoFormalTargets => "System name resolution produced no usable destination address",
        Conclusion::HostnameResolutionDefinitiveNegative => "System name resolution returned a definitive negative answer",
        Conclusion::HostnameResolutionNoUsableAddress => "System name resolution returned no usable IPv4 or IPv6 address",
        Conclusion::HostnameResolutionIndeterminate => "System name resolution failed without a definitive answer",
        Conclusion::AllTargetsSatisfied => "Every address passed cleanly",
        Conclusion::TargetsSatisfiedWithAnomaly => "Every address eventually responded, with an earlier anomaly retained",
        Conclusion::TargetResultsMixed => "Different addresses produced different results",
        Conclusion::NoTargetCleanlySatisfied => "No address passed cleanly",
        Conclusion::CapabilityLimited => "The primary result is retained, but this system could not safely perform a deeper diagnostic step",
    }
}

/// What was observed of a destination, in plain words.
pub open spec fn observation_text(conclusion: Conclusion) -> Seq<char> {
    match conclusion {
        Conclusion::TcpConnectSucceededAfterTimeout =>
            "TCP connection succeeded on retry after an earlier timeout"@,
        Conclusion::TcpExplicitFailure => "TCP connection failed with an explicit network result"@,
        Conclusion::TcpTimedOutButTargetIcmpResponded => "TCP timed out twice; ICMP Echo replied"@,
        Conclusion::TcpTimedOutWithExplicitIcmpResult =>
            "TCP timed out twice; ICMP returned an explicit network result"@,
        Conclusion::IcmpEchoRepliedAfterTimeout =>
            "ICMP Echo Reply received on retry after an earlier timeout"@,
        Conclusion::IcmpExplicitFailure => "ICMP returned an explicit network result"@,
        Conclusion::IcmpEchoTimedOut => "No ICMP Echo Reply after two attempts"@,
        Conclusion::IcmpResponseIndeterminate =>
            "ICMP response did not prove success or a definite failure"@,
        Conclusion::DefinitiveNoPath => "Local network facts prove there is no usable path"@,
        Conclusion::NeighborResolutionIndeterminate =>
            "Required local Neighbor resolution was inconclusive"@,
        _ => note_text(conclusion),
    }
}

fn observation_label(conclusion: Conclusion) -> (result: &'static str)
    ensures
        result@ == observation_text(conclusion),
        text::inert(result@),
{
    proof {
        reveal_strlit("TCP connection succeeded on retry after an earlier timeout");
        reveal_strlit("TCP connection failed with an explicit network result");
        reveal_strlit("TCP timed out twice; ICMP Echo replied");
        reveal_strlit("TCP timed out twice; ICMP returned an explicit network result");
        reveal_strlit("ICMP Echo Reply received on retry after an earlier timeout");
        reveal_strlit("ICMP returned an explicit network result");
        reveal_strlit("No ICMP Echo Reply after two attempts");
        reveal_strlit("ICMP response did not prove success or a definite failure");
        reveal_strlit("Local network facts prove there is no usable path");
        reveal_strlit("Required local Neighbor resolution was inconclusive");
    }
    match conclusion {
        Conclusion::TcpConnectSucceededAfterTimeout =>
            "TCP connection succeeded on retry after an earlier timeout",
        Conclusion::TcpExplicitFailure => "TCP connection failed with an explicit network result",
        Conclusion::TcpTimedOutButTargetIcmpResponded => "TCP timed out twice; ICMP Echo replied",
        Conclusion::TcpTimedOutWithExplicitIcmpResult =>
            "TCP timed out twice; ICMP returned an explicit network result",
        Conclusion::IcmpEchoRepliedAfterTimeout =>
            "ICMP Echo Reply received on retry after an earlier timeout",
        Conclusion::IcmpExplicitFailure => "ICMP returned an explicit network result",
        Conclusion::IcmpEchoTimedOut => "No ICMP Echo Reply after two attempts",
        Conclusion::IcmpResponseIndeterminate =>
            "ICMP response did not prove success or a definite failure",
        Conclusion::DefinitiveNoPath => "Local network facts prove there is no usable path",
        Conclusion::NeighborResolutionIndeterminate =>
            "Required local Neighbor resolution was inconclusive",
        _ => diagnostic_note(conclusion),
    }
}

fn target_observation(target: &TargetDiagnostic) -> (result: String)
    ensures
        result@ == observation_text(target.deep_view().conclusion),
        text::inert(result@),
{
    observation_label(target.conclusion).to_owned()
}

/// Whether there are targets and all of them led to one conclusion.
pub open spec fn all_are(targets: Seq<TargetDiagnosticView>, conclusion: Conclusion) -> bool {
    targets.len() > 0 && forall|i: int|
        0 <= i < targets.len() ==> (#[trigger] targets[i]).conclusion == conclusion
}

fn all_targets_are(completed: &CompletedDiagnostic, conclusion: Conclusion) -> (result: bool)
    ensures
        result == all_are(completed.deep_view().targets, conclusion),
{
    let targets = &completed.targets;
    let ghost all = targets.deep_view();
    assert(all.len() == targets.len());
    let mut i: usize = 0;
    while i < targets.len()
        invariant
            i <= targets.len(),
            all == targets.deep_view(),
            all == completed.deep_view().targets,
            forall|j: int| 0 <= j < i ==> (#[trigger] all[j]).conclusion == conclusion,
        decreases targets.len() - i,
    {
        if targets[i].conclusion != conclusion {
            assert(all[i as int].conclusion != conclusion);
            return false;
        }
        i += 1;
    }
    targets.len() > 0
}

/// How many targets had an outcome.
pub open spec fn outcome_count(targets: Seq<TargetDiagnosticView>, outcome: PrimaryOutcome) -> nat
    decreases targets.len(),
{
    if targets.len() == 0 {
        0
    } else {
        outcome_count(targets.drop_last(), outcome) + if targets.last().primary_outcome == outcome {
            1nat
        } else {
            0nat
        }
    }
}

fn count_outcome(targets: &Vec<TargetDiagnostic>, outcome: PrimaryOutcome) -> (result: usize)
    ensures
        result == outcome_count(targets.deep_view(), outcome),
        result <= targets.len(),
{
    let ghost all = targets.deep_view();
    let mut count: usize = 0;
    let mut i: usize = 0;
    while i < targets.len()
        invariant
            i <= targets.len(),
            count <= i,
            all == targets.deep_view(),
            count == outcome_count(all.take(i as int), outcome),
        decreases targets.len() - i,
    {
        assert(all.take(i + 1).drop_last() =~= all.take(i as int));
        if targets[i].primary_outcome == outcome {
            count += 1;
        }
        i += 1;
    }
    assert(all.take(i as int) =~= all);
    count
}

/// How many targets responded, at once or after a retry.
pub open spec fn eventual_count(targets: Seq<TargetDiagnosticView>) -> nat
    decreases targets.len(),
{
    if targets.len() == 0 {
        0
    } else {
        eventual_count(targets.drop_last()) + if targets.last().primary_outcome.eventual() {
            1nat
        } else {
            0nat
        }
    }
}

fn count_eventual(targets: &Vec<TargetDiagnostic>) -> (result: usize)
    ensures
        result == eventual_count(targets.deep_view()),
{
    let ghost all = targets.deep_view();
    let mut count: usize = 0;
    let mut i: usize = 0;
    while i < targets.len()
        invariant
            i <= targets.len(),
            count <= i,
            all == targets.deep_view(),
            count == eventual_count(all.take(i as int)),
        decreases targets.len() - i,
    {
        assert(all.take(i + 1).drop_last() =~= all.take(i as int));
        if targets[i].primary_outcome.is_eventually_satisfied() {
            count += 1;
        }
        i += 1;
    }
    assert(all.take(i as int) =~= all);
    count
}

/// The counts of all four outcomes, in words.
pub open spec fn counts_text(targets: Seq<TargetDiagnosticView>) -> Seq<char> {
    text::decimal(outcome_count(targets, PrimaryOutcome::Satisfied)) + " passed, "@
        + text::decimal(outcome_count(targets, PrimaryOutcome::SatisfiedWithAnomaly))
        + " passed after retry, "@ + text::decimal(
        outcome_count(targets, PrimaryOutcome::NotSatisfied),
    ) + " failed, "@ + text::decimal(outcome_count(targets, PrimaryOutcome::Indeterminate))
        + " inconclusive"@
}

fn count_summary(completed: &CompletedDiagnostic) -> (result: String)
    ensures
        result@ == counts_text(completed.deep_view().targets),
        text::inert(result@),
{
    proof {
        reveal_strlit(" passed, ");
        reveal_strlit(" passed after retry, ");
        reveal_strlit(" failed, ");
        reveal_strlit(" inconclusive");
    }
    let targets = &completed.targets;
    let clean = count_text(count_outcome(targets, PrimaryOutcome::Satisfied));
    let retried = count_text(count_outcome(targets, PrimaryOutcome::SatisfiedWithAnomaly));
    let failed = count_text(count_outcome(targets, PrimaryOutcome::NotSatisfied));
    let inconclusive = count_text(count_outcome(targets, PrimaryOutcome::Indeterminate));
    let passed = text::join4(
        clean.as_str(),
        " passed, ",
        retried.as_str(),
        " passed after retry, ",
    );
    let counted = text::join4(passed.as_str(), failed.as_str(), " failed, ", inconclusive.as_str());
    text::join2(counted.as_str(), " inconclusive")
}

/// The result of a run in a few words.
pub open spec fn result_text(completed: CompletedDiagnosticView) -> Seq<char> {
    match completed.aggregate_outcome {
        AggregateOutcome::AllSatisfied => "Passed"@,
        AggregateOutcome::SatisfiedWithAnomaly => "Passed after retry; earlier timeout retained"@,
        AggregateOutcome::Mixed => counts_text(completed.targets),
        AggregateOutcome::NoneCleanlySatisfied => {
            let failed = outcome_count(completed.targets, PrimaryOutcome::NotSatisfied);
            let inconclusive = outcome_count(completed.targets, PrimaryOutcome::Indeterminate);
            if failed == 0 {
                "Inconclusive"@
            } else if inconclusive == 0 {
                "Failed"@
            } else {
                text::decimal(failed) + " failed, "@ + text::decimal(inconclusive)
                    + " inconclusive"@
            }
        },
        AggregateOutcome::NoFormalTargets => "Not started"@,
    }
}

fn result_summary(completed: &CompletedDiagnostic) -> (result: String)
    ensures
        result@ == result_text(completed.deep_view()),
        text::inert(result@),
{
    proof {
        reveal_strlit("Passed");
        reveal_strlit("Passed after retry; earlier timeout retained");
        reveal_strlit("Inconclusive");
        reveal_strlit("Failed");
        reveal_strlit(" failed, ");
        reveal_strlit(" inconclusive");
        reveal_strlit("Not started");
    }
    match completed.aggregate_outcome {
        AggregateOutcome::AllSatisfied => "Passed".to_owned(),
        AggregateOutcome::SatisfiedWithAnomaly =>
            "Passed after retry; earlier timeout retained".to_owned(),
        AggregateOutcome::Mixed => count_summary(completed),
        AggregateOutcome::NoneCleanlySatisfied => {
            let failed: usize = count_outcome(&completed.targets, PrimaryOutcome::NotSatisfied);
            let inconclusive: usize = count_outcome(
                &completed.targets,
                PrimaryOutcome::Indeterminate,
            );
            if failed == 0 {
                "Inconclusive".to_owned()
            } else if inconclusive == 0 {
                "Failed".to_owned()
            } else {
                text::join4(
                    count_text(failed).as_str(),
                    " failed, ",
                    count_text(inconclusive).as_str(),
                    " inconclusive",
                )
            }
        },
        AggregateOutcome::NoFormalTargets => "Not started".to_owned(),
    }
}

/// The title of a report, without its mark.
pub open spec fn title_text(completed: CompletedDiagnosticView) -> Seq<char> {
    match completed.aggregate_outcome {
        AggregateOutcome::AllSatisfied => if completed.request.port is Some {
            "TCP CONNECTION SUCCEEDED"@
        } else {
            "ADDRESS RESPONDED"@
        },
        AggregateOutcome::SatisfiedWithAnomaly => "REACHABLE, BUT A RETRY WAS NEEDED"@,
        AggregateOutcome::Mixed => "RESULTS DIFFER BETWEEN IP ADDRESSES"@,
        AggregateOutcome::NoneCleanlySatisfied => if all_are(
            completed.targets,
            Conclusion::TcpTimedOutButTargetIcmpResponded,
        ) {
            "TCP PORT DID NOT RESPOND"@
        } else if all_are(completed.targets, Conclusion::TcpConnectionRefused) {
            "TCP CONNECTION WAS REFUSED"@
        } else if completed.request.port is Some {
            "TCP CONNECTION DID NOT SUCCEED"@
        } else {
            "NO ICMP REPLY WAS CONFIRMED"@
        },
        AggregateOutcome::NoFormalTargets => match completed.hostname_resolution {
            HostnameResolutionOutcomeView::NonDefinitiveFailure { .. } =>
                "NAME COULD NOT BE RESOLVED RELIABLY"@,
            _ => "NO USABLE IP ADDRESS"@,
        },
    }
}

fn verdict_title(completed: &CompletedDiagnostic) -> (result: &'static str)
    ensures
        result@ == title_text(completed.deep_view()),
        text::inert(result@),
{
    proof {
        reveal_strlit("TCP CONNECTION SUCCEEDED");
        reveal_strlit("ADDRESS RESPONDED");
        reveal_strlit("REACHABLE, BUT A RETRY WAS NEEDED");
        reveal_strlit("RESULTS DIFFER BETWEEN IP ADDRESSES");
        reveal_strlit("TCP PORT DID NOT RESPOND");
        reveal_strlit("TCP CONNECTION WAS REFUSED");
        reveal_strlit("TCP CONNECTION DID NOT SUCCEED");
        reveal_strlit("NO ICMP REPLY WAS CONFIRMED");
        reveal_strlit("NAME COULD NOT BE RESOLVED RELIABLY");
        reveal_strlit("NO USABLE IP ADDRESS");
    }
    match completed.aggregate_outcome {
        AggregateOutcome::AllSatisfied => if completed.request.port.is_some() {
            "TCP CONNECTION SUCCEEDED"
        } else {
            "ADDRESS RESPONDED"
        },
        AggregateOutcome::SatisfiedWithAnomaly => "REACHABLE, BUT A RETRY WAS NEEDED",
        AggregateOutcome::Mixed => "RESULTS DIFFER BETWEEN IP ADDRESSES",
        AggregateOutcome::NoneCleanlySatisfied => if all_targets_are(
            completed,
            Conclusion::TcpTimedOutButTargetIcmpResponded,
        ) {
            "TCP PORT DID NOT RESPOND"
        } else if all_targets_are(completed, Conclusion::TcpConnectionRefused) {
            "TCP CONNECTION WAS REFUSED"
        } else if completed.request.port.is_some() {
            "TCP CONNECTION DID NOT SUCCEED"
        } else {
            "NO ICMP REPLY WAS CONFIRMED"
        },
        AggregateOutcome::NoFormalTargets => match &completed.hostname_resolution {
            HostnameResolutionOutcome::NonDefinitiveFailure { .. } =>
                "NAME COULD NOT BE RESOLVED RELIABLY",
            _ => "NO USABLE IP ADDRESS",
        },
    }
}

/// What the verdict says of targets that all passed.
pub open spec fn passed_line(completed: CompletedDiagnosticView) -> Seq<char> {
    let count = completed.targets.len();
    let address = presentation::terminal_text(completed.request.original_address);
    match completed.request.port {
        Some(port) => if count == 1 {
            "A TCP connection to "@ + target_text(completed.targets[0].target, Some(port))
                + " succeeded."@
        } else {
            "TCP connections to port "@ + port_text(port) + " succeeded for all "@ + text::decimal(
                count,
            ) + " IP addresses returned for "@ + address + "."@
        },
        None => if count == 1 {
            target_text(completed.targets[0].target, None) + " replied to ICMP Echo."@
        } else {
            "All "@ + text::decimal(count) + " IP addresses returned for "@ + address
                + " replied to ICMP Echo."@
        },
    }
}

fn passed_summary(completed: &CompletedDiagnostic) -> (result: String)
    ensures
        result@ == passed_line(completed.deep_view()),
        text::inert(result@),
{
    proof {
        reveal_strlit("A TCP connection to ");
        reveal_strlit(" succeeded.");
        reveal_strlit("TCP connections to port ");
        reveal_strlit(" succeeded for all ");
        reveal_strlit(" IP addresses returned for ");
        reveal_strlit(".");
        reveal_strlit(" replied to ICMP Echo.");
        reveal_strlit("All ");
    }
    let targets = &completed.targets;
    assert(targets.deep_view().len() == targets.len());
    let count: usize = targets.len();
    let address = terminal_escape(completed.request.original_address.as_str());
    match completed.request.port {
        Some(port) => if count == 1 {
            assert(targets.deep_view()[0] == targets[0].deep_view());
            let label = target_label(&targets[0].target, Some(port));
            text::join3("A TCP connection to ", label.as_str(), " succeeded.")
        } else {
            let start = text::join4(
                "TCP connections to port ",
                write_port(port).as_str(),
                " succeeded for all ",
                count_text(count).as_str(),
            );
            text::join4(start.as_str(), " IP addresses returned for ", address.as_str(), ".")
        },
        None => if count == 1 {
            assert(targets.deep_view()[0] == targets[0].deep_view());
            let label = target_label(&targets[0].target, None);
            text::join2(label.as_str(), " replied to ICMP Echo.")
        } else {
            let start = text::join4(
                "All ",
                count_text(count).as_str(),
                " IP addresses returned for ",
                address.as_str(),
            );
            text::join2(start.as_str(), " replied to ICMP Echo.")
        },
    }
}

/// What the verdict says of targets that a TCP connection was tried to without success.
pub open spec fn unconnected_lines(
    targets: Seq<TargetDiagnosticView>,
    port: NonZeroU16,
) -> Seq<Seq<char>> {
    let count = targets.len();
    if all_are(targets, Conclusion::TcpTimedOutButTargetIcmpResponded) {
        if count == 1 {
            seq![
                "Two TCP connection attempts to "@ + target_text(targets[0].target, Some(port))
                    + " timed out."@,
                "That IP address replied to ICMP Echo."@,
            ]
        } else {
            seq![
                "TCP connection attempts to port "@ + port_text(port) + " timed out twice for all "@
                    + text::decimal(count) + " IP addresses."@,
                "Those IP addresses replied to ICMP Echo."@,
            ]
        }
    } else if all_are(targets, Conclusion::TcpConnectionRefused) {
        if count == 1 {
            seq![
                "The TCP connection to "@ + target_text(targets[0].target, Some(port))
                    + " was explicitly refused."@,
            ]
        } else {
            seq![
                "All "@ + text::decimal(count)
                    + " IP addresses explicitly refused the TCP connection to port "@ + port_text(
                    port,
                ) + "."@,
            ]
        }
    } else {
        if count == 1 {
            seq![
                "The TCP connection to "@ + target_text(targets[0].target, Some(port))
                    + " did not succeed."@,
            ]
        } else {
            seq![
                "No TCP connection to port "@ + port_text(port) + " succeeded for the "@
                    + text::decimal(count) + " IP addresses checked."@,
            ]
        }
    }
}

fn unconnected_summary(completed: &CompletedDiagnostic, port: NonZeroU16) -> (result: Vec<String>)
    ensures
        result.deep_view() == unconnected_lines(completed.deep_view().targets, port),
        text::all_inert(result.deep_view()),
{
    proof {
        reveal_strlit("Two TCP connection attempts to ");
        reveal_strlit(" timed out.");
        reveal_strlit("That IP address replied to ICMP Echo.");
        reveal_strlit("TCP connection attempts to port ");
        reveal_strlit(" timed out twice for all ");
        reveal_strlit(" IP addresses.");
        reveal_strlit("Those IP addresses replied to ICMP Echo.");
        reveal_strlit("The TCP connection to ");
        reveal_strlit(" was explicitly refused.");
        reveal_strlit("All ");
        reveal_strlit(" IP addresses explicitly refused the TCP connection to port ");
        reveal_strlit(".");
        reveal_strlit(" did not succeed.");
        reveal_strlit("No TCP connection to port ");
        reveal_strlit(" succeeded for the ");
        reveal_strlit(" IP addresses checked.");
    }
    let targets = &completed.targets;
    assert(targets.deep_view().len() == targets.len());
    let count: usize = targets.len();
    let number = write_port(port);
    let counted = count_text(count);
    if all_targets_are(completed, Conclusion::TcpTimedOutButTargetIcmpResponded) {
        if count == 1 {
            assert(targets.deep_view()[0] == targets[0].deep_view());
            let label = target_label(&targets[0].target, Some(port));
            let tried = text::join3(
                "Two TCP connection attempts to ",
                label.as_str(),
                " timed out.",
            );
            text::list2(tried.as_str(), "That IP address replied to ICMP Echo.")
        } else {
            let tried = text::join4(
                "TCP connection attempts to port ",
                number.as_str(),
                " timed out twice for all ",
                counted.as_str(),
            );
            let tried = text::join2(tried.as_str(), " IP addresses.");
            text::list2(tried.as_str(), "Those IP addresses replied to ICMP Echo.")
        }
    } else if all_targets_are(completed, Conclusion::TcpConnectionRefused) {
        if count == 1 {
            assert(targets.deep_view()[0] == targets[0].deep_view());
            let label = target_label(&targets[0].target, Some(port));
            let refused = text::join3(
                "The TCP connection to ",
                label.as_str(),
                " was explicitly refused.",
            );
            text::list1(refused.as_str())
        } else {
            let refused = text::join4(
                "All ",
                counted.as_str(),
                " IP addresses explicitly refused the TCP connection to port ",
                number.as_str(),
            );
            text::list1(text::join2(refused.as_str(), ".").as_str())
        }
    } else {
        if count == 1 {
            assert(targets.deep_view()[0] == targets[0].deep_view());
            let label = target_label(&targets[0].target, Some(port));
            let failed = text::join3("The TCP connection to ", label.as_str(), " did not succeed.");
            text::list1(failed.as_str())
        } else {
            let failed = text::join4(
                "No TCP connection to port ",
                number.as_str(),
                " succeeded for the ",
                counted.as_str(),
            );
            text::list1(text::join2(failed.as_str(), " IP addresses checked.").as_str())
        }
    }
}

/// What the verdict says of a name that led to no address.
pub open spec fn unresolved_line(
    outcome: HostnameResolutionOutcomeView,
    address: Seq<char>,
) -> Seq<char> {
    match outcome {
        HostnameResolutionOutcomeView::DefinitiveNegative { .. } =>
            "System name resolution returned no usable IPv4 or IPv6 address for "@ + address
            + "."@,
        HostnameResolutionOutcomeView::NegativeWithoutUsableAddress { .. } =>
            "System name resolution returned no usable IPv4 or IPv6 address for "@ + address
            + "."@,
        HostnameResolutionOutcomeView::NonDefinitiveFailure { .. } =>
            "System name resolution could not produce a reliable IP address for "@ + address
            + "."@,
        HostnameResolutionOutcomeView::SucceededWithoutUsableAddress =>
            "System name resolution completed but returned no usable IPv4 or IPv6 address for "@
            + address + "."@,
        _ => "Reach could not form an IP address that could be checked reliably."@,
    }
}

fn unresolved_summary(outcome: &HostnameResolutionOutcome, address: &str) -> (result: String)
    ensures
        result@ == unresolved_line(outcome.deep_view(), address@),
        text::inert(address@) ==> text::inert(result@),
{
    proof {
        reveal_strlit("System name resolution returned no usable IPv4 or IPv6 address for ");
        reveal_strlit(".");
        reveal_strlit("System name resolution could not produce a reliable IP address for ");
        reveal_strlit("System name resolution completed but returned no usable IPv4 or IPv6 address for ");
        reveal_strlit("Reach could not form an IP address that could be checked reliably.");
    }
    match outcome {
        HostnameResolutionOutcome::DefinitiveNegative { .. }
        | HostnameResolutionOutcome::NegativeWithoutUsableAddress { .. } => text::join3(
            "System name resolution returned no usable IPv4 or IPv6 address for ",
            address,
            ".",
        ),
        HostnameResolutionOutcome::NonDefinitiveFailure { .. } => text::join3(
            "System name resolution could not produce a reliable IP address for ",
            address,
            ".",
        ),
        HostnameResolutionOutcome::SucceededWithoutUsableAddress => text::join3(
            "System name resolution completed but returned no usable IPv4 or IPv6 address for ",
            address,
            ".",
        ),
        HostnameResolutionOutcome::NotRequested | HostnameResolutionOutcome::Succeeded(_) =>
            "Reach could not form an IP address that could be checked reliably.".to_owned(),
    }
}

/// The sentences below the title of a report.
pub open spec fn verdict_lines(completed: CompletedDiagnosticView) -> Seq<Seq<char>> {
    let count = completed.targets.len();
    match completed.aggregate_outcome {
        AggregateOutcome::AllSatisfied => seq![passed_line(completed)],
        AggregateOutcome::SatisfiedWithAnomaly => if count == 1 {
            seq![
                "The destination eventually responded, but its first attempt timed out and a retry was needed."@,
            ]
        } else {
            seq![
                "All "@ + text::decimal(count)
                    + " IP addresses eventually responded, but at least one first timed out and required a retry."@,
            ]
        },
        AggregateOutcome::Mixed => seq![
            "The same check produced different results across "@ + text::decimal(count)
                + " IP addresses: "@ + text::decimal(
                outcome_count(completed.targets, PrimaryOutcome::Satisfied),
            ) + " passed cleanly and "@ + text::decimal(eventual_count(completed.targets))
                + " responded successfully in total."@,
        ],
        AggregateOutcome::NoneCleanlySatisfied => match completed.request.port {
            Some(port) => unconnected_lines(completed.targets, port),
            None => if count == 1 {
                seq!["The IP address did not produce a confirmed ICMP Echo Reply."@]
            } else {
                seq![
                    "None of the "@ + text::decimal(count)
                        + " IP addresses produced a confirmed ICMP Echo Reply."@,
                ]
            },
        },
        AggregateOutcome::NoFormalTargets => seq![
            unresolved_line(
                completed.hostname_resolution,
                presentation::terminal_text(completed.request.original_address),
            ),
        ],
    }
}

fn verdict_summary(completed: &CompletedDiagnostic) -> (result: Vec<String>)
    ensures
        result.deep_view() == verdict_lines(completed.deep_view()),
        text::all_inert(result.deep_view()),
{
    proof {
        reveal_strlit("The destination eventually responded, but its first attempt timed out and a retry was needed.");
        reveal_strlit("All ");
        reveal_strlit(" IP addresses eventually responded, but at least one first timed out and required a retry.");
        reveal_strlit("The same check produced different results across ");
        reveal_strlit(" IP addresses: ");
        reveal_strlit(" passed cleanly and ");
        reveal_strlit(" responded successfully in total.");
        reveal_strlit("The IP address did not produce a confirmed ICMP Echo Reply.");
        reveal_strlit("None of the ");
        reveal_strlit(" IP addresses produced a confirmed ICMP Echo Reply.");
    }
    assert(completed.targets.deep_view().len() == completed.targets.len());
    let count: usize = completed.targets.len();
    let counted = count_text(count);
    match completed.aggregate_outcome {
        AggregateOutcome::AllSatisfied => text::list1(passed_summary(completed).as_str()),
        AggregateOutcome::SatisfiedWithAnomaly => if count == 1 {
            text::list1(
                "The destination eventually responded, but its first attempt timed out and a retry was needed.",
            )
        } else {
            let retried = text::join3(
                "All ",
                counted.as_str(),
                " IP addresses eventually responded, but at least one first timed out and required a retry.",
            );
            text::list1(retried.as_str())
        },
        AggregateOutcome::Mixed => {
            let clean = count_text(count_outcome(&completed.targets, PrimaryOutcome::Satisfied));
            let eventual = count_text(count_eventual(&completed.targets));
            let start = text::join4(
                "The same check produced different results across ",
                counted.as_str(),
                " IP addresses: ",
                clean.as_str(),
            );
            let mixed = text::join4(
                start.as_str(),
                " passed cleanly and ",
                eventual.as_str(),
                " responded successfully in total.",
            );
            text::list1(mixed.as_str())
        },
        AggregateOutcome::NoneCleanlySatisfied => match completed.request.port {
            Some(port) => unconnected_summary(completed, port),
            None => if count == 1 {
                text::list1("The IP address did not produce a confirmed ICMP Echo Reply.")
            } else {
                let silent = text::join3(
                    "None of the ",
                    counted.as_str(),
                    " IP addresses produced a confirmed ICMP Echo Reply.",
                );
                text::list1(silent.as_str())
            },
        },
        AggregateOutcome::NoFormalTargets => {
            let address = terminal_escape(completed.request.original_address.as_str());
            text::list1(
                unresolved_summary(&completed.hostname_resolution, address.as_str()).as_str(),
            )
        },
    }
}

/// What the verdict means.
pub open spec fn meaning_lines(completed: CompletedDiagnosticView) -> Seq<Seq<char>> {
    match completed.aggregate_outcome {
        AggregateOutcome::AllSatisfied => if completed.request.port is Some {
            seq![
                "The TCP handshake completed, confirming TCP connectivity to the requested port at the time of the check."@,
                "Reach sent no application data, so this does not prove that HTTP, HTTPS, SSH, or another application protocol is working."@,
            ]
        } else {
            seq![
                "The destination returned an ICMP Echo Reply, confirming an address-level response at the time of the check."@,
                "This does not test a TCP port, website, or application service."@,
            ]
        },
        AggregateOutcome::SatisfiedWithAnomaly => seq![
            "Connectivity was eventually observed, but the earlier timeout remains evidence of an intermittent result."@,
            "The later success does not erase the first timeout, so Reach does not report a clean pass."@,
        ],
        AggregateOutcome::Mixed => seq![
            "A hostname can lead to several IP addresses, and those destinations can respond differently."@,
            "A successful address does not erase a failure or uncertainty on another address."@,
        ],
        AggregateOutcome::NoneCleanlySatisfied => if all_are(
            completed.targets,
            Conclusion::TcpTimedOutButTargetIcmpResponded,
        ) {
            seq![
                (if completed.targets.len() == 1 {
                    "The destination IP responded to ICMP"@
                } else {
                    "The destination IP addresses responded to ICMP"@
                }) + ", but no TCP connection to the requested port completed."@,
                "This does not prove that the port is closed. Reach cannot determine from these observations alone whether filtering, the network path, or the destination service caused the missing TCP response."@,
            ]
        } else if all_are(completed.targets, Conclusion::TcpConnectionRefused) {
            seq![
                "An explicit refusal proves that the TCP attempt received a response, but the requested connection was not established."@,
                "The refusal may come from the destination or an intermediate device; it does not by itself prove that no application is listening."@,
            ]
        } else if completed.request.port is Some {
            seq![
                "The requested TCP connection did not succeed; the destination results and evidence below show the boundary Reach actually observed."@,
                "Reach does not guess an unobserved root cause from a timeout or an operating-system error name."@,
            ]
        } else {
            seq![
                "Reach did not obtain a confirmed ICMP Echo Reply. This alone does not prove that the destination is down because ICMP may be blocked or limited."@,
            ]
        },
        AggregateOutcome::NoFormalTargets => if name_resolution::attempts_of(
            completed.resolver_diagnostics,
        ).len() > 0 {
            seq![
                "The hostname did not resolve to an IP address."@,
                "No ICMP or TCP check was started."@,
                "Any direct DNS evidence above is failure diagnosis only and was not used as a destination address."@,
            ]
        } else {
            seq![
                "The hostname did not resolve to an IP address."@,
                "No ICMP or TCP check was started."@,
            ]
        },
    }
}

fn meaning(completed: &CompletedDiagnostic) -> (result: Vec<String>)
    ensures
        result.deep_view() == meaning_lines(completed.deep_view()),
        text::all_inert(result.deep_view()),
{
    proof {
        reveal_strlit("The TCP handshake completed, confirming TCP connectivity to the requested port at the time of the check.");
        reveal_strlit("Reach sent no application data, so this does not prove that HTTP, HTTPS, SSH, or another application protocol is working.");
        reveal_strlit("The destination returned an ICMP Echo Reply, confirming an address-level response at the time of the check.");
        reveal_strlit("This does not test a TCP port, website, or application service.");
        reveal_strlit("Connectivity was eventually observed, but the earlier timeout remains evidence of an intermittent result.");
        reveal_strlit("The later success does not erase the first timeout, so Reach does not report a clean pass.");
        reveal_strlit("A hostname can lead to several IP addresses, and those destinations can respond differently.");
        reveal_strlit("A successful address does not erase a failure or uncertainty on another address.");
        reveal_strlit("The destination IP responded to ICMP");
        reveal_strlit("The destination IP addresses responded to ICMP");
        reveal_strlit(", but no TCP connection to the requested port completed.");
        reveal_strlit("This does not prove that the port is closed. Reach cannot determine from these observations alone whether filtering, the network path, or the destination service caused the missing TCP response.");
        reveal_strlit("An explicit refusal proves that the TCP attempt received a response, but the requested connection was not established.");
        reveal_strlit("The refusal may come from the destination or an intermediate device; it does not by itself prove that no application is listening.");
        reveal_strlit("The requested TCP connection did not succeed; the destination results and evidence below show the boundary Reach actually observed.");
        reveal_strlit("Reach does not guess an unobserved root cause from a timeout or an operating-system error name.");
        reveal_strlit("Reach did not obtain a confirmed ICMP Echo Reply. This alone does not prove that the destination is down because ICMP may be blocked or limited.");
        reveal_strlit("The hostname did not resolve to an IP address.");
        reveal_strlit("No ICMP or TCP check was started.");
        reveal_strlit("Any direct DNS evidence above is failure diagnosis only and was not used as a destination address.");
    }
    match completed.aggregate_outcome {
        AggregateOutcome::AllSatisfied => if completed.request.port.is_some() {
            text::list2(
                "The TCP handshake completed, confirming TCP connectivity to the requested port at the time of the check.",
                "Reach sent no application data, so this does not prove that HTTP, HTTPS, SSH, or another application protocol is working.",
            )
        } else {
            text::list2(
                "The destination returned an ICMP Echo Reply, confirming an address-level response at the time of the check.",
                "This does not test a TCP port, website, or application service.",
            )
        },
        AggregateOutcome::SatisfiedWithAnomaly => text::list2(
            "Connectivity was eventually observed, but the earlier timeout remains evidence of an intermittent result.",
            "The later success does not erase the first timeout, so Reach does not report a clean pass.",
        ),
        AggregateOutcome::Mixed => text::list2(
            "A hostname can lead to several IP addresses, and those destinations can respond differently.",
            "A successful address does not erase a failure or uncertainty on another address.",
        ),
        AggregateOutcome::NoneCleanlySatisfied => {
            if all_targets_are(completed, Conclusion::TcpTimedOutButTargetIcmpResponded) {
                assert(completed.targets.deep_view().len() == completed.targets.len());
                let subject = if completed.targets.len() == 1 {
                    "The destination IP responded to ICMP"
                } else {
                    "The destination IP addresses responded to ICMP"
                };
                let observed = text::join2(
                    subject,
                    ", but no TCP connection to the requested port completed.",
                );
                text::list2(
                    observed.as_str(),
                    "This does not prove that the port is closed. Reach cannot determine from these observations alone whether filtering, the network path, or the destination service caused the missing TCP response.",
                )
            } else if all_targets_are(completed, Conclusion::TcpConnectionRefused) {
                text::list2(
                    "An explicit refusal proves that the TCP attempt received a response, but the requested connection was not established.",
                    "The refusal may come from the destination or an intermediate device; it does not by itself prove that no application is listening.",
                )
            } else if completed.request.port.is_some() {
                text::list2(
                    "The requested TCP connection did not succeed; the destination results and evidence below show the boundary Reach actually observed.",
                    "Reach does not guess an unobserved root cause from a timeout or an operating-system error name.",
                )
            } else {
                text::list1(
                    "Reach did not obtain a confirmed ICMP Echo Reply. This alone does not prove that the destination is down because ICMP may be blocked or limited.",
                )
            }
        },
        AggregateOutcome::NoFormalTargets => if diagnostic_dns_ran(completed) {
            text::list3(
                "The hostname did not resolve to an IP address.",
                "No ICMP or TCP check was started.",
                "Any direct DNS evidence above is failure diagnosis only and was not used as a destination address.",
            )
        } else {
            text::list2(
                "The hostname did not resolve to an IP address.",
                "No ICMP or TCP check was started.",
            )
        },
    }
}

/// What a reader can do next.
pub open spec fn action_lines(completed: CompletedDiagnosticView) -> Seq<Seq<char>> {
    match completed.aggregate_outcome {
        AggregateOutcome::AllSatisfied => Seq::empty(),
        AggregateOutcome::SatisfiedWithAnomaly => seq![
            "Run the same check again and note whether the timeout repeats."@,
            "If users notice intermittent failures, send this result to the service owner or network team."@,
        ],
        AggregateOutcome::Mixed => seq![
            "Send this result to the service owner or network team; the per-address difference is important."@,
            "Keep every address and result when sharing it."@,
        ],
        AggregateOutcome::NoneCleanlySatisfied => match completed.request.port {
            Some(port) => seq![
                "Verify that TCP port "@ + port_text(port)
                    + " is correct and that the service is expected to accept connections on it."@,
                "If the port should be reachable, send this result to the service owner or network team."@,
            ],
            None => seq![
                "If the destination is expected to answer ping, run the check again to rule out short packet loss."@,
                "If you need help, send this result to the network team; ICMP silence alone is not proof that the destination is down."@,
            ],
        },
        AggregateOutcome::NoFormalTargets => seq![
            "Check that the hostname is correct."@,
            "Check this computer's name-resolution/DNS configuration."@,
        ],
    }
}

fn actions(completed: &CompletedDiagnostic) -> (result: Vec<String>)
    ensures
        result.deep_view() == action_lines(completed.deep_view()),
        text::all_inert(result.deep_view()),
{
    proof {
        reveal_strlit("Run the same check again and note whether the timeout repeats.");
        reveal_strlit("If users notice intermittent failures, send this result to the service owner or network team.");
        reveal_strlit("Send this result to the service owner or network team; the per-address difference is important.");
        reveal_strlit("Keep every address and result when sharing it.");
        reveal_strlit("Verify that TCP port ");
        reveal_strlit(" is correct and that the service is expected to accept connections on it.");
        reveal_strlit("If the port should be reachable, send this result to the service owner or network team.");
        reveal_strlit("If the destination is expected to answer ping, run the check again to rule out short packet loss.");
        reveal_strlit("If you need help, send this result to the network team; ICMP silence alone is not proof that the destination is down.");
        reveal_strlit("Check that the hostname is correct.");
        reveal_strlit("Check this computer's name-resolution/DNS configuration.");
    }
    match completed.aggregate_outcome {
        AggregateOutcome::AllSatisfied => {
            let none: Vec<String> = Vec::new();
            assert(none.deep_view() =~= Seq::empty());
            none
        },
        AggregateOutcome::SatisfiedWithAnomaly => text::list2(
            "Run the same check again and note whether the timeout repeats.",
            "If users notice intermittent failures, send this result to the service owner or network team.",
        ),
        AggregateOutcome::Mixed => text::list2(
            "Send this result to the service owner or network team; the per-address difference is important.",
            "Keep every address and result when sharing it.",
        ),
        AggregateOutcome::NoneCleanlySatisfied => match completed.request.port {
            Some(port) => {
                let verify = text::join3(
                    "Verify that TCP port ",
                    write_port(port).as_str(),
                    " is correct and that the service is expected to accept connections on it.",
                );
                text::list2(
                    verify.as_str(),
                    "If the port should be reachable, send this result to the service owner or network team.",
                )
            },
            None => text::list2(
                "If the destination is expected to answer ping, run the check again to rule out short packet loss.",
                "If you need help, send this result to the network team; ICMP silence alone is not proof that the destination is down.",
            ),
        },
        AggregateOutcome::NoFormalTargets => text::list2(
            "Check that the hostname is correct.",
            "Check this computer's name-resolution/DNS configuration.",
        ),
    }
}

/// A number with a noun in its singular or plural.
pub open spec fn counted_text(count: nat, singular: Seq<char>, plural: Seq<char>) -> Seq<char> {
    if count == 1 {
        "1 "@ + singular
    } else {
        text::decimal(count) + " "@ + plural
    }
}

fn counted(count: usize, singular: &str, plural: &str) -> (result: String)
    ensures
        result@ == counted_text(count as nat, singular@, plural@),
        text::inert(singular@) && text::inert(plural@) ==> text::inert(result@),
{
    proof {
        reveal_strlit("1 ");
        reveal_strlit(" ");
    }
    if count == 1 {
        text::join2("1 ", singular)
    } else {
        text::join3(count_text(count).as_str(), " ", plural)
    }
}

/// The label and the text of the field on name resolution, where a name was given.
pub open spec fn resolution_field(completed: CompletedDiagnosticView) -> Option<
    (Seq<char>, Seq<char>),
> {
    match completed.hostname_resolution {
        HostnameResolutionOutcomeView::NotRequested => None,
        HostnameResolutionOutcomeView::Succeeded(addresses) => match completed.system_resolver {
            Some(observation) if name_resolution::last_source(observation.name_resolution) == Some(
                NameResolutionSource::Hosts,
            ) => Some(("Name source"@, "hosts"@)),
            _ => Some(
                (
                    "Name resolution"@,
                    counted_text(
                        addresses.raw_addresses.len(),
                        "address returned"@,
                        "addresses returned"@,
                    ) + ", "@ + counted_text(
                        addresses.formal_targets.len(),
                        "unique address"@,
                        "unique addresses"@,
                    ) + " checked"@,
                ),
            ),
        },
        HostnameResolutionOutcomeView::SucceededWithoutUsableAddress => Some(
            ("Name resolution"@, "completed, but returned no usable IP address"@),
        ),
        HostnameResolutionOutcomeView::DefinitiveNegative { .. } => Some(
            ("Name resolution"@, "returned no usable IPv4 or IPv6 address"@),
        ),
        HostnameResolutionOutcomeView::NegativeWithoutUsableAddress { .. } => Some(
            ("Name resolution"@, "returned no usable IPv4 or IPv6 address"@),
        ),
        HostnameResolutionOutcomeView::NonDefinitiveFailure { .. } => Some(
            ("Name resolution"@, "failed without a definitive answer"@),
        ),
    }
}

fn resolver_check_summary(completed: &CompletedDiagnostic) -> (result: Option<
    (&'static str, String),
>)
    ensures
        match result {
            Some(shown) => resolution_field(completed.deep_view()) == Some((shown.0@, shown.1@)),
            None => resolution_field(completed.deep_view()) is None,
        },
        result matches Some(shown) ==> text::inert(shown.0@) && text::inert(shown.1@),
{
    proof {
        reveal_strlit("Name source");
        reveal_strlit("hosts");
        reveal_strlit("address returned");
        reveal_strlit("addresses returned");
        reveal_strlit("unique address");
        reveal_strlit("unique addresses");
        reveal_strlit("Name resolution");
        reveal_strlit(", ");
        reveal_strlit(" checked");
        reveal_strlit("completed, but returned no usable IP address");
        reveal_strlit("returned no usable IPv4 or IPv6 address");
        reveal_strlit("failed without a definitive answer");
    }
    match &completed.hostname_resolution {
        HostnameResolutionOutcome::NotRequested => None,
        HostnameResolutionOutcome::Succeeded(addresses) => {
            if let Some(observation) = &completed.system_resolver {
                let source = final_source(&observation.name_resolution);
                if matches!(source, Some(NameResolutionSource::Hosts)) {
                    return Some(("Name source", "hosts".to_owned()));
                }
            }
            assert(addresses.raw_addresses.deep_view().len() == addresses.raw_addresses.len());
            assert(addresses.formal_targets.deep_view().len() == addresses.formal_targets.len());
            let returned = counted(
                addresses.raw_addresses.len(),
                "address returned",
                "addresses returned",
            );
            let checked = counted(
                addresses.formal_targets.len(),
                "unique address",
                "unique addresses",
            );
            Some(
                (
                    "Name resolution",
                    text::join4(returned.as_str(), ", ", checked.as_str(), " checked"),
                ),
            )
        },
        HostnameResolutionOutcome::SucceededWithoutUsableAddress => Some(
            ("Name resolution", "completed, but returned no usable IP address".to_owned()),
        ),
        HostnameResolutionOutcome::DefinitiveNegative { .. }
        | HostnameResolutionOutcome::NegativeWithoutUsableAddress { .. } => Some(
            ("Name resolution", "returned no usable IPv4 or IPv6 address".to_owned()),
        ),
        HostnameResolutionOutcome::NonDefinitiveFailure { .. } => Some(
            ("Name resolution", "failed without a definitive answer".to_owned()),
        ),
    }
}

/// The check that was asked for.
pub open spec fn check_text(port: Option<NonZeroU16>) -> Seq<char> {
    match port {
        Some(port) => "TCP connection to port "@ + port_text(port),
        None => "ICMP Echo"@,
    }
}

fn check_label(port: Option<NonZeroU16>) -> (result: String)
    ensures
        result@ == check_text(port),
        text::inert(result@),
{
    proof {
        reveal_strlit("TCP connection to port ");
        reveal_strlit("ICMP Echo");
    }
    match port {
        Some(port) => text::join2("TCP connection to port ", write_port(port).as_str()),
        None => "ICMP Echo".to_owned(),
    }
}

/// The mark before the title of a report.
pub open spec fn marker_text(outcome: AggregateOutcome) -> Seq<char> {
    match outcome {
        AggregateOutcome::AllSatisfied => "✓ "@,
        AggregateOutcome::SatisfiedWithAnomaly | AggregateOutcome::Mixed => "! "@,
        AggregateOutcome::NoneCleanlySatisfied | AggregateOutcome::NoFormalTargets => "× "@,
    }
}

/// The color of the title of a report.
pub open spec fn verdict_tint(outcome: AggregateOutcome) -> Tint {
    match outcome {
        AggregateOutcome::AllSatisfied => Tint::Success,
        AggregateOutcome::SatisfiedWithAnomaly | AggregateOutcome::Mixed => Tint::Warning,
        AggregateOutcome::NoneCleanlySatisfied | AggregateOutcome::NoFormalTargets => Tint::Failure,
    }
}

/// A report with a paragraph for each of a sequence of texts.
pub open spec fn with_paragraphs(report: Seq<char>, theme: Theme, values: Seq<Seq<char>>) -> Seq<
    char,
>
    decreases values.len(),
{
    if values.len() == 0 {
        report
    } else {
        presentation::with_paragraph(
            with_paragraphs(report, theme, values.drop_last()),
            theme,
            values.last(),
        )
    }
}

fn paragraphs(output: &mut String, theme: Theme, values: &Vec<String>)
    ensures
        final(output)@ == with_paragraphs(old(output)@, theme, values.deep_view()),
        safety::safe(old(output)@, theme.styled) && text::all_inert(values.deep_view())
            ==> safety::safe(final(output)@, theme.styled),
{
    let ghost all = values.deep_view();
    let ghost before = output@;
    let mut i: usize = 0;
    while i < values.len()
        invariant
            i <= values.len(),
            all == values.deep_view(),
            output@ == with_paragraphs(before, theme, all.take(i as int)),
            safety::safe(before, theme.styled) && text::all_inert(all) ==> safety::safe(
                output@,
                theme.styled,
            ),
        decreases values.len() - i,
    {
        assert(all[i as int] == values[i as int]@);
        paragraph(output, theme, values[i].as_str());
        assert(all.take(i + 1).drop_last() =~= all.take(i as int));
        i += 1;
    }
    assert(all.take(i as int) =~= all);
}

/// A report with its verdict.
pub open spec fn with_verdict(
    report: Seq<char>,
    theme: Theme,
    completed: CompletedDiagnosticView,
) -> Seq<char> {
    let report = presentation::with_headline(
        report,
        theme,
        marker_text(completed.aggregate_outcome) + title_text(completed),
        verdict_tint(completed.aggregate_outcome),
    );
    let report = with_paragraphs(
        presentation::with_blank(report),
        theme,
        verdict_lines(completed),
    );
    presentation::with_blank(report)
}

fn render_verdict(output: &mut String, completed: &CompletedDiagnostic, theme: Theme)
    ensures
        final(output)@ == with_verdict(old(output)@, theme, completed.deep_view()),
        safety::safe(old(output)@, theme.styled) ==> safety::safe(final(output)@, theme.styled),
{
    proof {
        reveal_strlit("✓ ");
        reveal_strlit("! ");
        reveal_strlit("× ");
    }
    let (marker, tint) = match completed.aggregate_outcome {
        AggregateOutcome::AllSatisfied => ("✓ ", Tint::Success),
        AggregateOutcome::SatisfiedWithAnomaly | AggregateOutcome::Mixed => ("! ", Tint::Warning),
        AggregateOutcome::NoneCleanlySatisfied | AggregateOutcome::NoFormalTargets => (
            "× ",
            Tint::Failure,
        ),
    };
    let title = text::join2(marker, verdict_title(completed));
    headline(output, theme, title.as_str(), tint);
    blank(output);
    paragraphs(output, theme, &verdict_summary(completed));
    blank(output);
}

/// A report with what was checked and how it ended.
pub open spec fn with_check(
    report: Seq<char>,
    theme: Theme,
    completed: CompletedDiagnosticView,
) -> Seq<char> {
    let report = presentation::with_section(report, theme, "CHECK"@);
    let report = presentation::with_field(
        report,
        theme,
        "Address"@,
        presentation::terminal_text(completed.request.original_address),
    );
    let report = if completed.aggregate_outcome == AggregateOutcome::NoFormalTargets {
        presentation::with_field(
            report,
            theme,
            "Requested test"@,
            check_text(completed.request.port),
        )
    } else {
        let report = presentation::with_field(
            report,
            theme,
            "Test"@,
            check_text(completed.request.port),
        );
        let report = match resolution_field(completed) {
            Some(shown) => presentation::with_field(report, theme, shown.0, shown.1),
            None => report,
        };
        name_resolution::with_servers(
            report,
            theme,
            name_resolution::servers_of(name_resolution::formal_of(completed)),
            "DNS server"@,
            "DNS servers"@,
        )
    };
    presentation::with_blank(
        presentation::with_field(report, theme, "Result"@, result_text(completed)),
    )
}

fn render_check(output: &mut String, completed: &CompletedDiagnostic, theme: Theme)
    ensures
        final(output)@ == with_check(old(output)@, theme, completed.deep_view()),
        safety::safe(old(output)@, theme.styled) ==> safety::safe(final(output)@, theme.styled),
{
    proof {
        reveal_strlit("CHECK");
        reveal_strlit("Address");
        reveal_strlit("Requested test");
        reveal_strlit("Test");
        reveal_strlit("DNS server");
        reveal_strlit("DNS servers");
        reveal_strlit("Result");
    }
    section(output, theme, "CHECK");
    let address = terminal_escape(completed.request.original_address.as_str());
    field(output, theme, "Address", address.as_str());
    let check = check_label(completed.request.port);
    if completed.aggregate_outcome == AggregateOutcome::NoFormalTargets {
        field(output, theme, "Requested test", check.as_str());
    } else {
        field(output, theme, "Test", check.as_str());
        if let Some((label, summary)) = resolver_check_summary(completed) {
            field(output, theme, label, summary.as_str());
        }
        let servers = distinct_endpoints(&formal_exchanges(completed));
        server_field(output, theme, &servers, "DNS server", "DNS servers");
    }
    field(output, theme, "Result", result_summary(completed).as_str());
    blank(output);
}

/// A report with the targets in a list.
pub open spec fn with_target_list(
    report: Seq<char>,
    theme: Theme,
    targets: Seq<TargetDiagnosticView>,
    port: Option<NonZeroU16>,
) -> Seq<char>
    decreases targets.len(),
{
    if targets.len() == 0 {
        report
    } else {
        let target = targets.last();
        let report = with_target_list(report, theme, targets.drop_last(), port);
        let report = presentation::with_field(
            report,
            theme,
            "Target "@ + text::decimal(targets.len()),
            target_text(target.target, port),
        );
        let report = presentation::with_field(
            report,
            theme,
            "Status"@,
            status_text(target.primary_outcome),
        );
        presentation::with_field(
            report,
            theme,
            "Observed result"@,
            observation_text(target.conclusion),
        )
    }
}

fn list_targets(
    output: &mut String,
    theme: Theme,
    targets: &Vec<TargetDiagnostic>,
    port: Option<NonZeroU16>,
)
    ensures
        final(output)@ == with_target_list(old(output)@, theme, targets.deep_view(), port),
        safety::safe(old(output)@, theme.styled) ==> safety::safe(final(output)@, theme.styled),
{
    let ghost all = targets.deep_view();
    let ghost before = output@;
    let mut i: usize = 0;
    while i < targets.len()
        invariant
            i <= targets.len(),
            all == targets.deep_view(),
            output@ == with_target_list(before, theme, all.take(i as int), port),
            safety::safe(before, theme.styled) ==> safety::safe(output@, theme.styled),
        decreases targets.len() - i,
    {
        proof {
            reveal_strlit("Target ");
            reveal_strlit("Status");
            reveal_strlit("Observed result");
        }
        let target = &targets[i];
        let label = text::join2("Target ", count_text(i + 1).as_str());
        field(output, theme, label.as_str(), target_label(&target.target, port).as_str());
        field(output, theme, "Status", target_status(target.primary_outcome));
        field(output, theme, "Observed result", target_observation(target).as_str());
        assert(all.take(i + 1).drop_last() =~= all.take(i as int));
        i += 1;
    }
    assert(all.take(i as int) =~= all);
}

/// The cells of a target in the table, two or three of them.
pub open spec fn target_cells(
    target: TargetDiagnosticView,
    port: Option<NonZeroU16>,
    wide: bool,
) -> Seq<Seq<char>> {
    if wide {
        seq![
            status_text(target.primary_outcome),
            target_text(target.target, port),
            observation_text(target.conclusion),
        ]
    } else {
        seq![
            target_text(target.target, port),
            status_text(target.primary_outcome) + " — "@ + observation_text(target.conclusion),
        ]
    }
}

/// The rows of the table of targets.
pub open spec fn target_rows(
    targets: Seq<TargetDiagnosticView>,
    port: Option<NonZeroU16>,
    wide: bool,
) -> Seq<Seq<Seq<char>>> {
    Seq::new(targets.len(), |i: int| target_cells(targets[i], port, wide))
}

/// Whether every cell of a table is inert.
pub open spec fn inert_cells(rows: Seq<Seq<Seq<char>>>) -> bool {
    forall|i: int| 0 <= i < rows.len() ==> text::all_inert(#[trigger] rows[i])
}

/// The header of the table of targets.
pub open spec fn target_header(wide: bool) -> Seq<Seq<char>> {
    if wide {
        seq!["Status"@, "Target"@, "Observed result"@]
    } else {
        seq!["Target"@, "Result"@]
    }
}

fn write_cells(target: &TargetDiagnostic, port: Option<NonZeroU16>, wide: bool) -> (result: Vec<
    String,
>)
    ensures
        result.deep_view() == target_cells(target.deep_view(), port, wide),
        text::all_inert(result.deep_view()),
{
    proof {
        reveal_strlit(" — ");
    }
    let status = target_status(target.primary_outcome);
    let label = target_label(&target.target, port);
    let observation = target_observation(target);
    if wide {
        text::list3(status, label.as_str(), observation.as_str())
    } else {
        let shown = text::join3(status, " — ", observation.as_str());
        text::list2(label.as_str(), shown.as_str())
    }
}

fn write_rows(targets: &Vec<TargetDiagnostic>, port: Option<NonZeroU16>, wide: bool) -> (result:
    Vec<Vec<String>>)
    ensures
        result.deep_view() == target_rows(targets.deep_view(), port, wide),
        inert_cells(result.deep_view()),
{
    let ghost all = targets.deep_view();
    let mut result: Vec<Vec<String>> = Vec::new();
    let mut i: usize = 0;
    while i < targets.len()
        invariant
            i <= targets.len(),
            all == targets.deep_view(),
            result.len() == i,
            forall|j: int|
                0 <= j < i ==> (#[trigger] result@[j]).deep_view() == target_cells(
                    all[j],
                    port,
                    wide,
                ),
            forall|j: int| 0 <= j < i ==> text::all_inert((#[trigger] result@[j]).deep_view()),
        decreases targets.len() - i,
    {
        result.push(write_cells(&targets[i], port, wide));
        i += 1;
    }
    assert(result.deep_view() =~= target_rows(all, port, wide));
    assert forall|j: int| 0 <= j < result.deep_view().len() implies text::all_inert(
        #[trigger] result.deep_view()[j],
    ) by {
        assert(result.deep_view()[j] == result@[j].deep_view());
    }
    result
}

/// A report with indented lines.
pub open spec fn with_indented_lines(report: Seq<char>, lines: Seq<Seq<char>>) -> Seq<char>
    decreases lines.len(),
{
    if lines.len() == 0 {
        report
    } else {
        presentation::with_line(
            with_indented_lines(report, lines.drop_last()),
            "  "@ + lines.last(),
        )
    }
}

fn indented_lines(output: &mut String, lines: &Vec<String>)
    ensures
        final(output)@ == with_indented_lines(old(output)@, lines.deep_view()),
        forall|styled: bool|
            safety::safe(old(output)@, styled) && text::all_inert(lines.deep_view())
                ==> #[trigger] safety::safe(final(output)@, styled),
{
    let ghost all = lines.deep_view();
    let ghost before = output@;
    let mut i: usize = 0;
    while i < lines.len()
        invariant
            i <= lines.len(),
            all == lines.deep_view(),
            output@ == with_indented_lines(before, all.take(i as int)),
            forall|styled: bool|
                safety::safe(before, styled) && text::all_inert(all) ==> #[trigger] safety::safe(
                    output@,
                    styled,
                ),
        decreases lines.len() - i,
    {
        let indented = text::join2("  ", lines[i].as_str());
        proof {
            reveal_strlit("  ");
            assert(all[i as int] == lines[i as int]@);
            safety::lemma_inert_is_safe(indented@, true);
            safety::lemma_inert_is_safe(indented@, false);
        }
        line(output, indented.as_str());
        assert(all.take(i + 1).drop_last() =~= all.take(i as int));
        i += 1;
    }
    assert(all.take(i as int) =~= all);
}

/// The width of the table of targets: two columns less than the report, and at least one.
pub open spec fn table_columns(theme: Theme) -> u16 {
    if theme.columns() <= 3 {
        1
    } else {
        (theme.columns() - 2) as u16
    }
}

/// A report with the section on targets.
pub open spec fn with_targets(
    report: Seq<char>,
    theme: Theme,
    targets: Seq<TargetDiagnosticView>,
    port: Option<NonZeroU16>,
) -> Seq<char> {
    let report = presentation::with_section(report, theme, "TARGETS"@);
    let report = if theme.columns() < TABLE_WIDTH {
        with_target_list(report, theme, targets, port)
    } else {
        let wide = theme.columns() >= WIDE_TABLE_WIDTH;
        with_indented_lines(
            report,
            text::lines_of(
                table_text(
                    target_header(wide),
                    target_rows(targets, port, wide),
                    table_columns(theme),
                ),
            ),
        )
    };
    presentation::with_blank(report)
}

fn render_targets(output: &mut String, completed: &CompletedDiagnostic, theme: Theme)
    ensures
        final(output)@ == with_targets(
            old(output)@,
            theme,
            completed.deep_view().targets,
            completed.deep_view().request.port,
        ),
        safety::safe(old(output)@, theme.styled) ==> safety::safe(final(output)@, theme.styled),
{
    proof {
        reveal_strlit("TARGETS");
        reveal_strlit("Status");
        reveal_strlit("Target");
        reveal_strlit("Observed result");
        reveal_strlit("Result");
    }
    let port = completed.request.port;
    section(output, theme, "TARGETS");
    let width: usize = theme.content_width();
    if width < TABLE_WIDTH {
        list_targets(output, theme, &completed.targets, port);
    } else {
        let wide = width >= WIDE_TABLE_WIDTH;
        let header = if wide {
            text::list3("Status", "Target", "Observed result")
        } else {
            text::list2("Target", "Result")
        };
        let rows = write_rows(&completed.targets, port, wide);
        let table = write_table(&header, &rows, (width - 2) as u16);
        indented_lines(output, &text::split_lines(table.as_str()));
    }
    blank(output);
}

/// What the neighbor table said before an operation.
pub open spec fn neighbor_before_text(value: NeighborObservation) -> Seq<char> {
    match value {
        NeighborObservation::NotSampled => "not sampled"@,
        NeighborObservation::Observed(state) => neighbor_text(state),
        NeighborObservation::Unknown => "unknown"@,
        NeighborObservation::Unavailable => "unavailable"@,
    }
}

/// Says what the neighbor table said before an operation.
pub fn neighbor_observation_label(value: NeighborObservation) -> (result: &'static str)
    ensures
        result@ == neighbor_before_text(value),
        text::inert(result@),
{
    proof {
        reveal_strlit("not sampled");
        reveal_strlit("unknown");
        reveal_strlit("unavailable");
    }
    match value {
        NeighborObservation::NotSampled => "not sampled",
        NeighborObservation::Observed(state) => neighbor_state_label(state),
        NeighborObservation::Unknown => "unknown",
        NeighborObservation::Unavailable => "unavailable",
    }
}

/// What the neighbor table says.
pub open spec fn neighbor_text(value: NeighborState) -> Seq<char> {
    match value {
        NeighborState::Absent => "absent (no matching entry)"@,
        NeighborState::Resolving => "resolving"@,
        NeighborState::Usable => "usable"@,
        NeighborState::TerminalFailure => "terminal failure"@,
        NeighborState::Unknown => "unknown state"@,
    }
}

fn neighbor_state_label(value: NeighborState) -> (result: &'static str)
    ensures
        result@ == neighbor_text(value),
        text::inert(result@),
{
    proof {
        reveal_strlit("absent (no matching entry)");
        reveal_strlit("resolving");
        reveal_strlit("usable");
        reveal_strlit("terminal failure");
        reveal_strlit("unknown state");
    }
    match value {
        NeighborState::Absent => "absent (no matching entry)",
        NeighborState::Resolving => "resolving",
        NeighborState::Usable => "usable",
        NeighborState::TerminalFailure => "terminal failure",
        NeighborState::Unknown => "unknown state",
    }
}

/// The name of an ICMP message.
pub open spec fn icmp_text(value: IcmpMessageKind) -> Seq<char> {
    match value {
        IcmpMessageKind::EchoReply => "Reply"@,
        IcmpMessageKind::DestinationUnreachable => "ICMP Destination Unreachable"@,
        IcmpMessageKind::TimeExceeded => "ICMP Time Exceeded"@,
        IcmpMessageKind::PacketTooBig => "ICMP Packet Too Big"@,
        IcmpMessageKind::ParameterProblem => "ICMP Parameter Problem"@,
        IcmpMessageKind::Other => "other ICMP message"@,
    }
}

fn icmp_kind_label(value: IcmpMessageKind) -> (result: &'static str)
    ensures
        result@ == icmp_text(value),
        text::inert(result@),
{
    proof {
        reveal_strlit("Reply");
        reveal_strlit("ICMP Destination Unreachable");
        reveal_strlit("ICMP Time Exceeded");
        reveal_strlit("ICMP Packet Too Big");
        reveal_strlit("ICMP Parameter Problem");
        reveal_strlit("other ICMP message");
    }
    match value {
        IcmpMessageKind::EchoReply => "Reply",
        IcmpMessageKind::DestinationUnreachable => "ICMP Destination Unreachable",
        IcmpMessageKind::TimeExceeded => "ICMP Time Exceeded",
        IcmpMessageKind::PacketTooBig => "ICMP Packet Too Big",
        IcmpMessageKind::ParameterProblem => "ICMP Parameter Problem",
        IcmpMessageKind::Other => "other ICMP message",
    }
}

/// Why a capability was not there, in plain words.
pub open spec fn reason_text(reason: CapabilityReasonView) -> Seq<char> {
    match reason {
        CapabilityReasonView::NotExposedByOperatingSystem => "not exposed by the operating system"@,
        CapabilityReasonView::OrdinaryUserPermissionDenied => "ordinary-user permission was denied"@,
        CapabilityReasonView::SnapshotInconsistent =>
            "a captured-fact cross-reference inconsistency was found"@,
        CapabilityReasonView::QuerySemanticsUnavailable =>
            "the required read-only query is not available"@,
        CapabilityReasonView::AttemptCorrelationUnavailable =>
            "responses cannot be correlated reliably to the originating attempt"@,
        CapabilityReasonView::UnsupportedEnvironment => "the current environment is not supported"@,
        CapabilityReasonView::Other(value) => presentation::terminal_text(value),
    }
}

fn capability_reason(reason: &CapabilityReason) -> (result: String)
    ensures
        result@ == reason_text(reason.deep_view()),
        text::inert(result@),
{
    proof {
        reveal_strlit("not exposed by the operating system");
        reveal_strlit("ordinary-user permission was denied");
        reveal_strlit("a captured-fact cross-reference inconsistency was found");
        reveal_strlit("the required read-only query is not available");
        reveal_strlit("responses cannot be correlated reliably to the originating attempt");
        reveal_strlit("the current environment is not supported");
    }
    match reason {
        CapabilityReason::NotExposedByOperatingSystem =>
            "not exposed by the operating system".to_owned(),
        CapabilityReason::OrdinaryUserPermissionDenied =>
            "ordinary-user permission was denied".to_owned(),
        CapabilityReason::SnapshotInconsistent =>
            "a captured-fact cross-reference inconsistency was found".to_owned(),
        CapabilityReason::QuerySemanticsUnavailable =>
            "the required read-only query is not available".to_owned(),
        CapabilityReason::AttemptCorrelationUnavailable =>
            "responses cannot be correlated reliably to the originating attempt".to_owned(),
        CapabilityReason::UnsupportedEnvironment =>
            "the current environment is not supported".to_owned(),
        CapabilityReason::Other(value) => terminal_escape(value.as_str()),
    }
}

/// The kind of an attempt, in plain words.
pub open spec fn kind_text(kind: AttemptKind) -> Seq<char> {
    match kind {
        AttemptKind::TcpConnect => "TCP connect"@,
        AttemptKind::TargetIcmpEcho => "ICMP Echo"@,
        AttemptKind::NextHopIcmpEcho => "Next-hop ICMP Echo"@,
        AttemptKind::TcpPath { hop_limit } => "TCP path at hop "@ + hop_text(hop_limit),
        AttemptKind::IcmpPath { hop_limit } => "ICMP path at hop "@ + hop_text(hop_limit),
        AttemptKind::DnsUdp { query_type } => "Direct DNS "@ + name_resolution::query_type_text(
            query_type,
        ) + " over UDP"@,
        AttemptKind::DnsTcp { query_type } => "Direct DNS "@ + name_resolution::query_type_text(
            query_type,
        ) + " over TCP"@,
    }
}

fn attempt_kind_label(kind: AttemptKind) -> (result: String)
    ensures
        result@ == kind_text(kind),
        text::inert(result@),
{
    proof {
        reveal_strlit("TCP connect");
        reveal_strlit("ICMP Echo");
        reveal_strlit("Next-hop ICMP Echo");
        reveal_strlit("TCP path at hop ");
        reveal_strlit("ICMP path at hop ");
        reveal_strlit("Direct DNS ");
        reveal_strlit(" over UDP");
        reveal_strlit(" over TCP");
    }
    match kind {
        AttemptKind::TcpConnect => "TCP connect".to_owned(),
        AttemptKind::TargetIcmpEcho => "ICMP Echo".to_owned(),
        AttemptKind::NextHopIcmpEcho => "Next-hop ICMP Echo".to_owned(),
        AttemptKind::TcpPath { hop_limit } => text::join2(
            "TCP path at hop ",
            write_hop(hop_limit).as_str(),
        ),
        AttemptKind::IcmpPath { hop_limit } => text::join2(
            "ICMP path at hop ",
            write_hop(hop_limit).as_str(),
        ),
        AttemptKind::DnsUdp { query_type } => text::join3(
            "Direct DNS ",
            dns_query_type_label(query_type),
            " over UDP",
        ),
        AttemptKind::DnsTcp { query_type } => text::join3(
            "Direct DNS ",
            dns_query_type_label(query_type),
            " over TCP",
        ),
    }
}

/// The kind of an attempt with its number among its like, where it has one.
pub open spec fn display_text(kind: AttemptKind, ordinal: Option<nat>) -> Seq<char> {
    match ordinal {
        Some(ordinal) => match kind {
            AttemptKind::TcpPath { hop_limit } => kind_text(kind) + ", attempt #"@ + text::decimal(
                ordinal,
            ),
            AttemptKind::IcmpPath { hop_limit } => kind_text(kind) + ", attempt #"@ + text::decimal(
                ordinal,
            ),
            _ => kind_text(kind) + " #"@ + text::decimal(ordinal),
        },
        None => kind_text(kind),
    }
}

/// A number that may be missing, as a natural number.
pub open spec fn counted_from(ordinal: Option<usize>) -> Option<nat> {
    match ordinal {
        Some(ordinal) => Some(ordinal as nat),
        None => None,
    }
}

fn attempt_display_label(kind: AttemptKind, ordinal: Option<usize>) -> (result: String)
    ensures
        result@ == display_text(kind, counted_from(ordinal)),
        text::inert(result@),
{
    proof {
        reveal_strlit(", attempt #");
        reveal_strlit(" #");
    }
    let label = attempt_kind_label(kind);
    match ordinal {
        Some(ordinal) => {
            let number = count_text(ordinal);
            match kind {
                AttemptKind::TcpPath { .. } | AttemptKind::IcmpPath { .. } => text::join3(
                    label.as_str(),
                    ", attempt #",
                    number.as_str(),
                ),
                _ => text::join3(label.as_str(), " #", number.as_str()),
            }
        },
        None => label,
    }
}

/// Whether an attempt ended without a result.
pub open spec fn timed_out(outcome: AttemptOutcomeView) -> bool {
    ||| outcome == AttemptOutcomeView::Tcp(TcpAttemptResultView::Timeout)
    ||| outcome == AttemptOutcomeView::Icmp(IcmpAttemptResultView::Timeout)
    ||| outcome == AttemptOutcomeView::Dns(DnsAttemptResultView::Timeout)
}

fn attempt_timed_out(outcome: &AttemptOutcome) -> (result: bool)
    ensures
        result == timed_out(outcome.deep_view()),
{
    match outcome {
        AttemptOutcome::Tcp(TcpAttemptResult::Timeout) => true,
        AttemptOutcome::Icmp(IcmpAttemptResult::Timeout) => true,
        AttemptOutcome::Dns(DnsAttemptResult::Timeout) => true,
        _ => false,
    }
}

/// A phrase with an operating-system code after it, where there is one.
pub open spec fn with_code(
    phrase: Seq<char>,
    opening: Seq<char>,
    os_code: Option<i32>,
) -> Seq<char> {
    match os_code {
        Some(code) => phrase + opening + text::signed_decimal(code as int) + ")"@,
        None => phrase,
    }
}

fn attach_code(phrase: &str, opening: &str, os_code: Option<i32>) -> (result: String)
    ensures
        result@ == with_code(phrase@, opening@, os_code),
        text::inert(phrase@) && text::inert(opening@) ==> text::inert(result@),
{
    proof {
        reveal_strlit(")");
    }
    match os_code {
        Some(code) => text::join4(
            phrase,
            opening,
            text::signed_decimal_text(code).as_str(),
            ")",
        ),
        None => phrase.to_owned(),
    }
}

/// What came out of a TCP attempt.
pub open spec fn tcp_text(result: TcpAttemptResultView) -> Seq<char> {
    match result {
        TcpAttemptResultView::Connected { .. } => "TCP connection succeeded"@,
        TcpAttemptResultView::ConnectionRefused => "TCP connection was refused"@,
        TcpAttemptResultView::NoRoute => "the operating system reported no route"@,
        TcpAttemptResultView::NetworkUnreachable =>
            "the operating system reported the network unreachable"@,
        TcpAttemptResultView::HostUnreachable =>
            "the operating system reported the host unreachable"@,
        TcpAttemptResultView::PermissionDenied =>
            "the operating system denied the connection attempt"@,
        TcpAttemptResultView::ResourceExhausted => "local networking resources were exhausted"@,
        TcpAttemptResultView::OtherExplicitError { os_code } => with_code(
            "explicit operating-system error"@,
            " (code "@,
            os_code,
        ),
        TcpAttemptResultView::Timeout => "no TCP result before the deadline"@,
    }
}

fn tcp_outcome_label(result: &TcpAttemptResult) -> (label: String)
    ensures
        label@ == tcp_text(result.deep_view()),
        text::inert(label@),
{
    proof {
        reveal_strlit("TCP connection succeeded");
        reveal_strlit("TCP connection was refused");
        reveal_strlit("the operating system reported no route");
        reveal_strlit("the operating system reported the network unreachable");
        reveal_strlit("the operating system reported the host unreachable");
        reveal_strlit("the operating system denied the connection attempt");
        reveal_strlit("local networking resources were exhausted");
        reveal_strlit("explicit operating-system error");
        reveal_strlit(" (code ");
        reveal_strlit("no TCP result before the deadline");
    }
    match result {
        TcpAttemptResult::Connected { .. } => "TCP connection succeeded".to_owned(),
        TcpAttemptResult::ConnectionRefused => "TCP connection was refused".to_owned(),
        TcpAttemptResult::NoRoute => "the operating system reported no route".to_owned(),
        TcpAttemptResult::NetworkUnreachable =>
            "the operating system reported the network unreachable".to_owned(),
        TcpAttemptResult::HostUnreachable =>
            "the operating system reported the host unreachable".to_owned(),
        TcpAttemptResult::PermissionDenied =>
            "the operating system denied the connection attempt".to_owned(),
        TcpAttemptResult::ResourceExhausted =>
            "local networking resources were exhausted".to_owned(),
        TcpAttemptResult::OtherExplicitError { os_code } => attach_code(
            "explicit operating-system error",
            " (code ",
            *os_code,
        ),
        TcpAttemptResult::Timeout => "no TCP result before the deadline".to_owned(),
    }
}

/// What came out of a direct DNS attempt.
pub open spec fn dns_text(result: DnsAttemptResultView, kind: AttemptKind) -> Seq<char> {
    let query_type = match name_resolution::queried(kind) {
        Some(query_type) => query_type,
        None => DnsQueryType::A,
    };
    match result {
        DnsAttemptResultView::TransportError { os_code } => with_code(
            "Transport error"@,
            " (OS code "@,
            os_code,
        ),
        _ => name_resolution::attempt_text(result, query_type),
    }
}

fn dns_outcome_label(result: &DnsAttemptResult, kind: AttemptKind) -> (label: String)
    ensures
        label@ == dns_text(result.deep_view(), kind),
        text::inert(label@),
{
    proof {
        reveal_strlit("Transport error");
        reveal_strlit(" (OS code ");
        reveal_strlit("Protocol error");
        reveal_strlit("Timed out");
    }
    let query_type = match kind {
        AttemptKind::DnsUdp { query_type } | AttemptKind::DnsTcp { query_type } => query_type,
        _ => DnsQueryType::A,
    };
    match result {
        DnsAttemptResult::Response { response_code, addresses, aliases, truncated } => {
            assert(addresses.deep_view() =~= addresses@);
            dns_attempt_response_label(
                DnsResponseCode::from(*response_code),
                addresses,
                aliases,
                *truncated,
                query_type,
            )
        },
        DnsAttemptResult::TransportError { os_code } => attach_code(
            "Transport error",
            " (OS code ",
            *os_code,
        ),
        DnsAttemptResult::ProtocolError => "Protocol error".to_owned(),
        DnsAttemptResult::Timeout => "Timed out".to_owned(),
    }
}

/// An ICMP message and who sent it.
pub open spec fn message_text(kind: IcmpMessageKind, responder: IpAddr) -> Seq<char> {
    icmp_text(kind) + " from "@ + responder.shown()
}

fn message_label(kind: IcmpMessageKind, responder: IpAddr) -> (result: String)
    ensures
        result@ == message_text(kind, responder),
        text::inert(result@),
{
    proof {
        reveal_strlit(" from ");
    }
    text::join3(icmp_kind_label(kind), " from ", responder.to_text().as_str())
}

/// The texts of a sequence of ICMP messages.
pub open spec fn message_texts(messages: Seq<IcmpMessageObservation>) -> Seq<Seq<char>> {
    Seq::new(messages.len(), |i: int| message_text(messages[i].kind, messages[i].responder))
}

fn message_labels(messages: &Vec<IcmpMessageObservation>) -> (result: Vec<String>)
    ensures
        result.deep_view() == message_texts(messages@),
        text::all_inert(result.deep_view()),
{
    let mut result: Vec<String> = Vec::new();
    let mut i: usize = 0;
    while i < messages.len()
        invariant
            i <= messages.len(),
            result.deep_view().len() == i,
            forall|j: int|
                0 <= j < i ==> #[trigger] result.deep_view()[j] == message_text(
                    messages@[j].kind,
                    messages@[j].responder,
                ),
            text::all_inert(result.deep_view()),
        decreases messages.len() - i,
    {
        let label = message_label(messages[i].kind, messages[i].responder);
        text::push_text(&mut result, label.as_str());
        i += 1;
    }
    assert(result.deep_view() =~= message_texts(messages@));
    result
}

/// What came out of an ICMP attempt.
pub open spec fn icmp_result_text(result: IcmpAttemptResultView) -> Seq<char> {
    match result {
        IcmpAttemptResultView::Message { kind, responder, .. } => message_text(kind, responder),
        IcmpAttemptResultView::Messages(messages) => text::joined(message_texts(messages), "; "@),
        IcmpAttemptResultView::ExplicitNetworkError { os_code } => with_code(
            "explicit operating-system network error"@,
            " (code "@,
            os_code,
        ),
        IcmpAttemptResultView::Timeout => "no ICMP response before the deadline"@,
    }
}

fn icmp_outcome_label(result: &IcmpAttemptResult) -> (label: String)
    ensures
        label@ == icmp_result_text(result.deep_view()),
        text::inert(label@),
{
    proof {
        reveal_strlit("; ");
        reveal_strlit("explicit operating-system network error");
        reveal_strlit(" (code ");
        reveal_strlit("no ICMP response before the deadline");
    }
    match result {
        IcmpAttemptResult::Message { kind, responder, .. } => message_label(*kind, *responder),
        IcmpAttemptResult::Messages(messages) => {
            assert(messages.deep_view() =~= messages@);
            text::join_all(&message_labels(messages), "; ")
        },
        IcmpAttemptResult::ExplicitNetworkError { os_code } => attach_code(
            "explicit operating-system network error",
            " (code ",
            *os_code,
        ),
        IcmpAttemptResult::Timeout => "no ICMP response before the deadline".to_owned(),
    }
}

/// What came out of an attempt, in plain words.
pub open spec fn outcome_text(attempt: AttemptView) -> Seq<char> {
    match attempt.outcome {
        AttemptOutcomeView::Tcp(result) => tcp_text(result),
        AttemptOutcomeView::Icmp(result) => icmp_result_text(result),
        AttemptOutcomeView::Dns(result) => dns_text(result, attempt.kind),
    }
}

/// Says what came out of an attempt.
pub fn friendly_attempt_outcome(attempt: &Attempt) -> (result: String)
    ensures
        result@ == outcome_text(attempt.deep_view()),
        text::inert(result@),
{
    match &attempt.outcome {
        AttemptOutcome::Tcp(result) => tcp_outcome_label(result),
        AttemptOutcome::Icmp(result) => icmp_outcome_label(result),
        AttemptOutcome::Dns(result) => dns_outcome_label(result, attempt.kind),
    }
}

/// What an attempt adds to the evidence.
pub open spec fn attempt_line(attempt: AttemptView, ordinal: Option<nat>) -> Seq<char> {
    let check = display_text(attempt.kind, ordinal);
    let budget = attempt.timing.deadline_at.less(attempt.timing.started_at);
    let duration = attempt.timing.completed_at.less(attempt.timing.started_at);
    if timed_out(attempt.outcome) {
        check + ": No result before the "@ + presentation::duration_text(budget) + " deadline."@
    } else if duration.span() == 0 {
        check + ": "@ + outcome_text(attempt) + " at the same observable clock reading."@
    } else {
        check + ": "@ + outcome_text(attempt) + " in "@ + presentation::duration_text(duration)
            + "."@
    }
}

/// Says what an attempt adds to the evidence.
pub fn attempt_evidence_summary(attempt: &Attempt, ordinal: Option<usize>) -> (result: String)
    ensures
        result@ == attempt_line(attempt.deep_view(), counted_from(ordinal)),
        text::inert(result@),
{
    proof {
        reveal_strlit(": No result before the ");
        reveal_strlit(" deadline.");
        reveal_strlit(": ");
        reveal_strlit(" at the same observable clock reading.");
        reveal_strlit(" in ");
        reveal_strlit(".");
    }
    let check = attempt_display_label(attempt.kind, ordinal);
    if attempt_timed_out(&attempt.outcome) {
        let budget = attempt.timing.deadline_at.saturating_sub(attempt.timing.started_at);
        return text::join4(
            check.as_str(),
            ": No result before the ",
            human_duration(budget).as_str(),
            " deadline.",
        );
    }
    let outcome = friendly_attempt_outcome(attempt);
    let duration = attempt.timing.duration();
    if duration.is_zero() {
        text::join4(
            check.as_str(),
            ": ",
            outcome.as_str(),
            " at the same observable clock reading.",
        )
    } else {
        let observed = text::join4(check.as_str(), ": ", outcome.as_str(), " in ");
        text::join3(observed.as_str(), human_duration(duration).as_str(), ".")
    }
}

/// Where the first attempt with an identifier stands.
pub open spec fn position(attempts: Seq<AttemptView>, id: AttemptId) -> Option<nat>
    decreases attempts.len(),
{
    if attempts.len() == 0 {
        None
    } else {
        match position(attempts.drop_last(), id) {
            Some(found) => Some(found),
            None => if attempts.last().id == id {
                Some((attempts.len() - 1) as nat)
            } else {
                None
            },
        }
    }
}

/// How many attempts are of a kind.
pub open spec fn kind_count(attempts: Seq<AttemptView>, kind: AttemptKind) -> nat
    decreases attempts.len(),
{
    if attempts.len() == 0 {
        0
    } else {
        kind_count(attempts.drop_last(), kind) + if attempts.last().kind == kind {
            1nat
        } else {
            0nat
        }
    }
}

/// The number of an attempt among those of its kind, where there are several.
pub open spec fn local_ordinal(attempts: Seq<AttemptView>, index: int) -> Option<nat> {
    let kind = attempts[index].kind;
    if kind_count(attempts, kind) > 1 {
        Some(kind_count(attempts.take(index + 1), kind))
    } else {
        None
    }
}

fn count_kind(attempts: &Vec<Attempt>, end: usize, kind: AttemptKind) -> (result: usize)
    requires
        end <= attempts.len(),
    ensures
        result == kind_count(attempts.deep_view().take(end as int), kind),
{
    let ghost all = attempts.deep_view();
    let mut count: usize = 0;
    let mut i: usize = 0;
    while i < end
        invariant
            i <= end,
            end <= attempts.len(),
            count <= i,
            all == attempts.deep_view(),
            count == kind_count(all.take(i as int), kind),
        decreases end - i,
    {
        assert(all.take(i + 1).drop_last() =~= all.take(i as int));
        if attempts[i].kind == kind {
            count += 1;
        }
        i += 1;
    }
    count
}

/// Numbers an attempt among those of its kind, where there are several.
pub fn local_attempt_ordinal(attempts: &Vec<Attempt>, index: usize) -> (result: Option<usize>)
    requires
        index < attempts.len(),
    ensures
        counted_from(result) == local_ordinal(attempts.deep_view(), index as int),
{
    let kind = attempts[index].kind;
    assert(attempts.deep_view().take(attempts.len() as int) =~= attempts.deep_view());
    if count_kind(attempts, attempts.len(), kind) > 1 {
        Some(count_kind(attempts, index + 1, kind))
    } else {
        None
    }
}

/// The first attempt with an identifier, and its number among its like.
pub open spec fn found_in(attempts: Seq<AttemptView>, id: AttemptId) -> Option<
    (AttemptView, Option<nat>),
> {
    match position(attempts, id) {
        Some(index) => Some(
            (attempts[index as int], local_ordinal(attempts, index as int)),
        ),
        None => None,
    }
}

/// Whether an executable answer says the same as a model of it.
pub open spec fn same_finding(
    result: Option<(&Attempt, Option<usize>)>,
    found: Option<(AttemptView, Option<nat>)>,
) -> bool {
    match result {
        Some(answer) => found == Some((answer.0.deep_view(), counted_from(answer.1))),
        None => found is None,
    }
}

fn find_in(attempts: &Vec<Attempt>, id: AttemptId) -> (result: Option<(&Attempt, Option<usize>)>)
    ensures
        same_finding(result, found_in(attempts.deep_view(), id)),
{
    let ghost all = attempts.deep_view();
    let mut i: usize = 0;
    while i < attempts.len()
        invariant
            i <= attempts.len(),
            all == attempts.deep_view(),
            position(all.take(i as int), id) is None,
        decreases attempts.len() - i,
    {
        assert(all.take(i + 1).drop_last() =~= all.take(i as int));
        if attempts[i].id == id {
            proof {
                lemma_position_stays(all, i as int + 1, id);
            }
            return Some((&attempts[i], local_attempt_ordinal(attempts, i)));
        }
        i += 1;
    }
    assert(all.take(i as int) =~= all);
    None
}

proof fn lemma_position_stays(attempts: Seq<AttemptView>, end: int, id: AttemptId)
    requires
        0 <= end <= attempts.len(),
        position(attempts.take(end), id) is Some,
    ensures
        position(attempts, id) == position(attempts.take(end), id),
    decreases attempts.len() - end,
{
    if end == attempts.len() {
        assert(attempts.take(end) =~= attempts);
    } else {
        assert(attempts.take(end + 1).drop_last() =~= attempts.take(end));
        lemma_position_stays(attempts, end + 1, id);
    }
}

/// The first attempt with an identifier among those of a sequence of targets.
pub open spec fn found_in_targets(targets: Seq<TargetDiagnosticView>, id: AttemptId) -> Option<
    (AttemptView, Option<nat>),
>
    decreases targets.len(),
{
    if targets.len() == 0 {
        None
    } else {
        match found_in_targets(targets.drop_last(), id) {
            Some(found) => Some(found),
            None => found_in(targets.last().attempts, id),
        }
    }
}

/// The first attempt with an identifier among those of a sequence of resolvers.
pub open spec fn found_in_resolvers(
    resolvers: Seq<ResolverDependencyDiagnosticView>,
    id: AttemptId,
) -> Option<(AttemptView, Option<nat>)>
    decreases resolvers.len(),
{
    if resolvers.len() == 0 {
        None
    } else {
        match found_in_resolvers(resolvers.drop_last(), id) {
            Some(found) => Some(found),
            None => found_in(resolvers.last().attempts, id),
        }
    }
}

/// The attempt with an identifier: one of a target, or else one of a resolver.
pub open spec fn found(completed: CompletedDiagnosticView, id: AttemptId) -> Option<
    (AttemptView, Option<nat>),
> {
    match found_in_targets(completed.targets, id) {
        Some(found) => Some(found),
        None => found_in_resolvers(completed.resolver_diagnostics, id),
    }
}

proof fn lemma_target_finding_stays(targets: Seq<TargetDiagnosticView>, end: int, id: AttemptId)
    requires
        0 <= end <= targets.len(),
        found_in_targets(targets.take(end), id) is Some,
    ensures
        found_in_targets(targets, id) == found_in_targets(targets.take(end), id),
    decreases targets.len() - end,
{
    if end == targets.len() {
        assert(targets.take(end) =~= targets);
    } else {
        assert(targets.take(end + 1).drop_last() =~= targets.take(end));
        lemma_target_finding_stays(targets, end + 1, id);
    }
}

proof fn lemma_resolver_finding_stays(
    resolvers: Seq<ResolverDependencyDiagnosticView>,
    end: int,
    id: AttemptId,
)
    requires
        0 <= end <= resolvers.len(),
        found_in_resolvers(resolvers.take(end), id) is Some,
    ensures
        found_in_resolvers(resolvers, id) == found_in_resolvers(resolvers.take(end), id),
    decreases resolvers.len() - end,
{
    if end == resolvers.len() {
        assert(resolvers.take(end) =~= resolvers);
    } else {
        assert(resolvers.take(end + 1).drop_last() =~= resolvers.take(end));
        lemma_resolver_finding_stays(resolvers, end + 1, id);
    }
}

fn find_in_targets(targets: &Vec<TargetDiagnostic>, id: AttemptId) -> (result: Option<
    (&Attempt, Option<usize>),
>)
    ensures
        same_finding(result, found_in_targets(targets.deep_view(), id)),
{
    let ghost all = targets.deep_view();
    let mut i: usize = 0;
    while i < targets.len()
        invariant
            i <= targets.len(),
            all == targets.deep_view(),
            found_in_targets(all.take(i as int), id) is None,
        decreases targets.len() - i,
    {
        assert(all.take(i + 1).drop_last() =~= all.take(i as int));
        let answer = find_in(&targets[i].attempts, id);
        if answer.is_some() {
            proof {
                lemma_target_finding_stays(all, i as int + 1, id);
            }
            return answer;
        }
        i += 1;
    }
    assert(all.take(i as int) =~= all);
    None
}

fn find_in_resolvers(resolvers: &Vec<ResolverDependencyDiagnostic>, id: AttemptId) -> (result:
    Option<(&Attempt, Option<usize>)>)
    ensures
        same_finding(result, found_in_resolvers(resolvers.deep_view(), id)),
{
    let ghost all = resolvers.deep_view();
    let mut i: usize = 0;
    while i < resolvers.len()
        invariant
            i <= resolvers.len(),
            all == resolvers.deep_view(),
            found_in_resolvers(all.take(i as int), id) is None,
        decreases resolvers.len() - i,
    {
        assert(all.take(i + 1).drop_last() =~= all.take(i as int));
        let answer = find_in(&resolvers[i].attempts, id);
        if answer.is_some() {
            proof {
                lemma_resolver_finding_stays(all, i as int + 1, id);
            }
            return answer;
        }
        i += 1;
    }
    assert(all.take(i as int) =~= all);
    None
}

fn find_attempt(completed: &CompletedDiagnostic, id: AttemptId) -> (result: Option<
    (&Attempt, Option<usize>),
>)
    ensures
        same_finding(result, found(completed.deep_view(), id)),
{
    let answer = find_in_targets(&completed.targets, id);
    if answer.is_some() {
        return answer;
    }
    find_in_resolvers(&completed.resolver_diagnostics, id)
}

/// What one piece of evidence says.
pub open spec fn evidence_line(completed: CompletedDiagnosticView, evidence: EvidenceView) -> Seq<
    char,
> {
    match evidence.fact {
        EvidenceFactView::Attempt(id) => match found(completed, id) {
            Some(found) => attempt_line(found.0, found.1),
            None => "A decision attempt was retained, but its detail is unavailable."@,
        },
        EvidenceFactView::InitialPath(value) => "Snapshot path inference: "@
            + presentation::terminal_text(value) + "."@,
        EvidenceFactView::CurrentPath(value) => "Targeted OS path query: "@
            + presentation::terminal_text(value) + "."@,
        EvidenceFactView::NeighborTransition { before, after } => "Neighbor before: "@
            + neighbor_before_text(before) + "; after: "@ + neighbor_text(after) + "."@,
        EvidenceFactView::SystemResolverResult(value) => "Name resolution: "@
            + presentation::terminal_text(value) + "."@,
        EvidenceFactView::DirectDnsResult(value) => "Direct DNS diagnostic: "@
            + presentation::terminal_text(value) + "."@,
        EvidenceFactView::NameResolution(value) => "Name resolution: "@
            + name_resolution::outcome_text(value.outcome) + "."@,
        EvidenceFactView::DnsExchange(DnsExchangeEvidenceView::Formal(exchange)) => "Formal DNS "@
            + name_resolution::query_type_text(exchange.query_type) + " exchange with "@
            + exchange.endpoint.address.shown() + " for "@ + presentation::terminal_text(
            exchange.query_name,
        ) + ": "@ + name_resolution::exchange_summary(exchange) + "."@,
        EvidenceFactView::DnsExchange(DnsExchangeEvidenceView::Diagnostic(id)) => match found(
            completed,
            id,
        ) {
            Some(found) => attempt_line(found.0, found.1),
            None => "A direct DNS diagnostic attempt was retained, but its detail is unavailable."@,
        },
        EvidenceFactView::CapabilityUnavailable { capability, reason } => {
            let told = presentation::terminal_text(capability) + " unavailable: "@ + reason_text(
                reason,
            ) + "."@;
            match evidence.subject {
                EvidenceSubjectView::Resolver(label) => "Resolver "@ + presentation::terminal_text(
                    label,
                ) + ": "@ + told,
                _ => told,
            }
        },
        EvidenceFactView::SnapshotInconsistency(value) =>
            "Snapshot cross-check found an inconsistency: "@ + presentation::terminal_text(value)
            + "."@,
        EvidenceFactView::SocketPathComparison(value) => "Targeted OS path comparison: "@
            + presentation::terminal_text(value) + "."@,
    }
}

fn told_of(opening: &str, value: &str) -> (result: String)
    ensures
        result@ == opening@ + presentation::terminal_text(value@) + "."@,
        text::inert(opening@) ==> text::inert(result@),
{
    proof {
        reveal_strlit(".");
    }
    text::join3(opening, terminal_escape(value).as_str(), ".")
}

/// Says what one piece of evidence holds.
pub fn evidence_summary(completed: &CompletedDiagnostic, evidence: &Evidence) -> (result: String)
    ensures
        result@ == evidence_line(completed.deep_view(), evidence.deep_view()),
        text::inert(result@),
{
    proof {
        reveal_strlit("A decision attempt was retained, but its detail is unavailable.");
        reveal_strlit("Snapshot path inference: ");
        reveal_strlit("Targeted OS path query: ");
        reveal_strlit("Neighbor before: ");
        reveal_strlit("; after: ");
        reveal_strlit(".");
        reveal_strlit("Name resolution: ");
        reveal_strlit("Direct DNS diagnostic: ");
        reveal_strlit("Formal DNS ");
        reveal_strlit(" exchange with ");
        reveal_strlit(" for ");
        reveal_strlit(": ");
        reveal_strlit("A direct DNS diagnostic attempt was retained, but its detail is unavailable.");
        reveal_strlit(" unavailable: ");
        reveal_strlit("Resolver ");
        reveal_strlit("Snapshot cross-check found an inconsistency: ");
        reveal_strlit("Targeted OS path comparison: ");
    }
    match &evidence.fact {
        EvidenceFact::Attempt(id) => match find_attempt(completed, *id) {
            Some((attempt, ordinal)) => attempt_evidence_summary(attempt, ordinal),
            None => "A decision attempt was retained, but its detail is unavailable.".to_owned(),
        },
        EvidenceFact::InitialPath(value) => told_of("Snapshot path inference: ", value.as_str()),
        EvidenceFact::CurrentPath(value) => told_of("Targeted OS path query: ", value.as_str()),
        EvidenceFact::NeighborTransition { before, after } => {
            let states = text::join4(
                "Neighbor before: ",
                neighbor_observation_label(*before),
                "; after: ",
                neighbor_state_label(*after),
            );
            text::join2(states.as_str(), ".")
        },
        EvidenceFact::SystemResolverResult(value) => told_of("Name resolution: ", value.as_str()),
        EvidenceFact::DirectDnsResult(value) => told_of("Direct DNS diagnostic: ", value.as_str()),
        EvidenceFact::NameResolution(value) => text::join3(
            "Name resolution: ",
            name_resolution_outcome_label(value.outcome),
            ".",
        ),
        EvidenceFact::DnsExchange(DnsExchangeEvidence::Formal(exchange)) => {
            let asked = text::join4(
                "Formal DNS ",
                dns_query_type_label(exchange.query_type),
                " exchange with ",
                exchange.endpoint.address.to_text().as_str(),
            );
            let asked = text::join3(
                asked.as_str(),
                " for ",
                terminal_escape(exchange.query_name.as_str()).as_str(),
            );
            text::join4(asked.as_str(), ": ", formal_exchange_summary(exchange).as_str(), ".")
        },
        EvidenceFact::DnsExchange(DnsExchangeEvidence::Diagnostic(id)) => {
            match find_attempt(completed, *id) {
                Some((attempt, ordinal)) => attempt_evidence_summary(attempt, ordinal),
                None =>
                    "A direct DNS diagnostic attempt was retained, but its detail is unavailable.".to_owned(),
            }
        },
        EvidenceFact::CapabilityUnavailable { capability, reason } => {
            let told = text::join4(
                terminal_escape(capability.as_str()).as_str(),
                " unavailable: ",
                capability_reason(reason).as_str(),
                ".",
            );
            match &evidence.subject {
                EvidenceSubject::Resolver(label) => text::join4(
                    "Resolver ",
                    terminal_escape(label.as_str()).as_str(),
                    ": ",
                    told.as_str(),
                ),
                _ => told,
            }
        },
        EvidenceFact::SnapshotInconsistency(value) => told_of(
            "Snapshot cross-check found an inconsistency: ",
            value.as_str(),
        ),
        EvidenceFact::SocketPathComparison(value) => told_of(
            "Targeted OS path comparison: ",
            value.as_str(),
        ),
    }
}

/// What the pieces of evidence say that are not shown elsewhere.
pub open spec fn evidence_lines(
    completed: CompletedDiagnosticView,
    evidence: Seq<EvidenceView>,
) -> Seq<Seq<char>>
    decreases evidence.len(),
{
    if evidence.len() == 0 {
        Seq::empty()
    } else if name_resolution::is_distinct(completed, evidence.last().fact) {
        evidence_lines(completed, evidence.drop_last()).push(
            evidence_line(completed, evidence.last()),
        )
    } else {
        evidence_lines(completed, evidence.drop_last())
    }
}

fn evidence_summaries(completed: &CompletedDiagnostic) -> (result: Vec<String>)
    ensures
        result.deep_view() == evidence_lines(
            completed.deep_view(),
            completed.deep_view().key_evidence,
        ),
        text::all_inert(result.deep_view()),
{
    let evidence = &completed.key_evidence;
    let ghost all = evidence.deep_view();
    let mut result: Vec<String> = Vec::new();
    assert(result.deep_view() =~= Seq::empty());
    let mut i: usize = 0;
    while i < evidence.len()
        invariant
            i <= evidence.len(),
            all == evidence.deep_view(),
            result.deep_view() == evidence_lines(completed.deep_view(), all.take(i as int)),
            text::all_inert(result.deep_view()),
        decreases evidence.len() - i,
    {
        assert(all.take(i + 1).drop_last() =~= all.take(i as int));
        if evidence_is_distinct(completed, &evidence[i].fact) {
            let summary = evidence_summary(completed, &evidence[i]);
            text::push_text(&mut result, summary.as_str());
        }
        i += 1;
    }
    assert(all.take(i as int) =~= all);
    result
}

/// A report with a section that is a list, left out where the list is empty.
pub open spec fn with_listed(
    report: Seq<char>,
    theme: Theme,
    title: Seq<char>,
    values: Seq<Seq<char>>,
) -> Seq<char> {
    if values.len() == 0 {
        report
    } else {
        presentation::with_blank(
            presentation::with_bullets(
                presentation::with_section(report, theme, title),
                theme,
                values,
            ),
        )
    }
}

fn listed_section(output: &mut String, theme: Theme, title: &str, values: &Vec<String>)
    ensures
        final(output)@ == with_listed(old(output)@, theme, title@, values.deep_view()),
        safety::safe(old(output)@, theme.styled) && text::inert(title@)
            && text::all_inert(values.deep_view())
            ==> safety::safe(final(output)@, theme.styled),
{
    assert(values.deep_view().len() == values.len());
    if values.len() == 0 {
        return;
    }
    section(output, theme, title);
    bullets(output, theme, values);
    blank(output);
}

/// The pieces of evidence that a report shows: none where every target passed.
pub open spec fn shown_evidence(completed: CompletedDiagnosticView) -> Seq<Seq<char>> {
    if completed.aggregate_outcome == AggregateOutcome::AllSatisfied {
        Seq::empty()
    } else {
        evidence_lines(completed, completed.key_evidence)
    }
}

fn render_key_evidence(output: &mut String, completed: &CompletedDiagnostic, theme: Theme)
    ensures
        final(output)@ == with_listed(
            old(output)@,
            theme,
            "EVIDENCE"@,
            shown_evidence(completed.deep_view()),
        ),
        safety::safe(old(output)@, theme.styled) ==> safety::safe(final(output)@, theme.styled),
{
    proof {
        reveal_strlit("EVIDENCE");
    }
    if completed.aggregate_outcome == AggregateOutcome::AllSatisfied {
        return;
    }
    listed_section(output, theme, "EVIDENCE", &evidence_summaries(completed));
}

/// The report on a completed check.
pub open spec fn completed_report(completed: CompletedDiagnosticView, theme: Theme) -> Seq<char> {
    let report = with_verdict(Seq::empty(), theme, completed);
    let report = with_check(report, theme, completed);
    let report = name_resolution::with_name_resolution(report, theme, completed);
    let report = if completed.targets.len() == 0 {
        report
    } else {
        with_targets(report, theme, completed.targets, completed.request.port)
    };
    let report = with_listed(report, theme, "WHAT THIS MEANS"@, meaning_lines(completed));
    let report = with_listed(report, theme, "WHAT TO DO"@, action_lines(completed));
    with_listed(report, theme, "EVIDENCE"@, shown_evidence(completed))
}

/// Writes the report on a completed check.
pub fn render(completed: &CompletedDiagnostic, theme: Theme) -> (result: String)
    ensures
        result@ == completed_report(completed.deep_view(), theme),
        safety::safe(result@, theme.styled),
{
    proof {
        reveal_strlit("WHAT THIS MEANS");
        reveal_strlit("WHAT TO DO");
    }
    let mut output = String::new();
    proof {
        safety::lemma_lined_is_safe(output@, theme.styled);
    }
    render_verdict(&mut output, completed, theme);
    render_check(&mut output, completed, theme);
    render_name_resolution_sections(&mut output, completed, theme);
    assert(completed.targets.deep_view().len() == completed.targets.len());
    if completed.targets.len() > 0 {
        render_targets(&mut output, completed, theme);
    }
    listed_section(&mut output, theme, "WHAT THIS MEANS", &meaning(completed));
    listed_section(&mut output, theme, "WHAT TO DO", &actions(completed));
    render_key_evidence(&mut output, completed, theme);
    output
}

/// Whether two runs agree in everything but the evidence that they kept.
pub open spec fn differs_in_evidence(
    completed: CompletedDiagnosticView,
    other: CompletedDiagnosticView,
) -> bool {
    other == (CompletedDiagnosticView { evidence: other.evidence, ..completed })
}

proof fn lemma_same_verdict_lines(
    completed: CompletedDiagnosticView,
    other: CompletedDiagnosticView,
)
    requires
        differs_in_evidence(completed, other),
    ensures
        title_text(other) == title_text(completed),
        verdict_lines(other) == verdict_lines(completed),
{
}

proof fn lemma_same_advice(completed: CompletedDiagnosticView, other: CompletedDiagnosticView)
    requires
        differs_in_evidence(completed, other),
    ensures
        meaning_lines(other) == meaning_lines(completed),
        action_lines(other) == action_lines(completed),
{
}

proof fn lemma_same_check(
    completed: CompletedDiagnosticView,
    other: CompletedDiagnosticView,
    report: Seq<char>,
    theme: Theme,
)
    requires
        differs_in_evidence(completed, other),
    ensures
        with_check(report, theme, other) == with_check(report, theme, completed),
        name_resolution::with_name_resolution(report, theme, other)
            == name_resolution::with_name_resolution(report, theme, completed),
{
    assert(resolution_field(other) == resolution_field(completed));
    assert(name_resolution::formal_of(other) == name_resolution::formal_of(completed));
    assert(result_text(other) == result_text(completed));
}

proof fn lemma_same_evidence_line(
    completed: CompletedDiagnosticView,
    other: CompletedDiagnosticView,
    item: EvidenceView,
)
    requires
        differs_in_evidence(completed, other),
    ensures
        name_resolution::is_distinct(other, item.fact) == name_resolution::is_distinct(
            completed,
            item.fact,
        ),
        evidence_line(other, item) == evidence_line(completed, item),
{
}

proof fn lemma_same_evidence_lines(
    completed: CompletedDiagnosticView,
    other: CompletedDiagnosticView,
    shown: Seq<EvidenceView>,
)
    requires
        differs_in_evidence(completed, other),
    ensures
        evidence_lines(other, shown) == evidence_lines(completed, shown),
    decreases shown.len(),
{
    if shown.len() > 0 {
        lemma_same_evidence_lines(completed, other, shown.drop_last());
        lemma_same_evidence_line(completed, other, shown.last());
    }
}

/// A report shows key evidence only: whatever else a run has kept, its report stays the same.
pub proof fn only_key_evidence_is_shown(
    completed: CompletedDiagnosticView,
    other: CompletedDiagnosticView,
    theme: Theme,
)
    requires
        differs_in_evidence(completed, other),
    ensures
        completed_report(other, theme) == completed_report(completed, theme),
{
    let verdict = with_verdict(Seq::empty(), theme, completed);
    let check = with_check(verdict, theme, completed);
    lemma_same_verdict_lines(completed, other);
    lemma_same_check(completed, other, verdict, theme);
    lemma_same_check(completed, other, check, theme);
    lemma_same_advice(completed, other);
    lemma_same_evidence_lines(completed, other, completed.key_evidence);
}

/// A run in which every target passed is reported without evidence and without advice.
pub proof fn clean_success_needs_no_evidence(completed: CompletedDiagnosticView)
    requires
        completed.aggregate_outcome == AggregateOutcome::AllSatisfied,
    ensures
        shown_evidence(completed).len() == 0,
        action_lines(completed).len() == 0,
{
}

} // verus!
