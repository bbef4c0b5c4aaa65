//! The words of a report: each says what it stands for.

use vstd::prelude::*;

use crate::capability::CapabilityReasonView;
use crate::engine::observation;
use crate::formation::ScopeBindingError;
use crate::input::InputError;
use crate::model::{
    DnsResponseCode, IcmpMessageKind, NameResolutionSource, NeighborState, TcpAttemptResultView,
};
use crate::path::InitialPathStatus;
use crate::presentation::completed;
use crate::presentation::error;
use crate::presentation::name_resolution;
use crate::result::{
    Conclusion, ExecutionErrorKind, NameResolutionEvidenceOutcome, PrimaryOutcome,
};
use crate::text;

verus! {

/// A phrase that stands letter by letter at a place of a text is mentioned there.
pub(crate) proof fn lemma_mentions(shown: Seq<char>, phrase: Seq<char>, place: int)
    requires
        0 <= place <= shown.len() - phrase.len(),
        forall|i: int|
            0 <= i < phrase.len() ==> #[trigger] phrase[i] == shown[place + i],
    ensures
        text::mentions(shown, phrase),
{
    assert(shown.subrange(place, place + phrase.len()) =~= phrase);
}

/// A note says which protocol a conclusion is about and what came out of it: a refusal is called a
/// refusal, a timeout a timeout, and what remains open inconclusive.
pub proof fn notes_say_what_was_concluded(conclusion: Conclusion)
    ensures
        conclusion is TcpConnectSucceeded || conclusion is TcpConnectSucceededAfterTimeout
            || conclusion is TcpConnectionRefused || conclusion is TcpExplicitFailure
            || conclusion is TcpConnectTimedOut
            || conclusion is TcpTimedOutButTargetIcmpResponded
            || conclusion is TcpTimedOutWithExplicitIcmpResult
            ==> text::mentions(completed::note_text(conclusion), "TCP"@),
        conclusion is IcmpEchoReplied || conclusion is IcmpEchoRepliedAfterTimeout
            || conclusion is IcmpExplicitFailure || conclusion is IcmpEchoTimedOut
            || conclusion is IcmpResponseIndeterminate
            || conclusion is TcpTimedOutButTargetIcmpResponded
            || conclusion is TcpTimedOutWithExplicitIcmpResult
            ==> text::mentions(completed::note_text(conclusion), "ICMP"@),
        conclusion is TcpConnectSucceeded || conclusion is TcpConnectSucceededAfterTimeout
            ==> text::mentions(completed::note_text(conclusion), "connection succeeded"@),
        conclusion is TcpConnectSucceededAfterTimeout
            || conclusion is IcmpEchoRepliedAfterTimeout
            ==> text::mentions(completed::note_text(conclusion), "after an earlier timeout"@),
        conclusion is TcpConnectionRefused
            ==> text::mentions(completed::note_text(conclusion), "refused"@),
        conclusion is TcpConnectTimedOut || conclusion is TcpTimedOutButTargetIcmpResponded
            || conclusion is TcpTimedOutWithExplicitIcmpResult || conclusion is IcmpEchoTimedOut
            ==> text::mentions(completed::note_text(conclusion), "timed out"@),
        conclusion is TcpExplicitFailure || conclusion is TcpTimedOutWithExplicitIcmpResult
            || conclusion is IcmpExplicitFailure || conclusion is PathExplicitlyTerminated
            ==> text::mentions(completed::note_text(conclusion), "explicit"@),
        conclusion is TcpTimedOutButTargetIcmpResponded
            ==> text::mentions(completed::note_text(conclusion), "replied to ICMP Echo"@),
        conclusion is IcmpEchoReplied || conclusion is IcmpEchoRepliedAfterTimeout
            ==> text::mentions(completed::note_text(conclusion), "Echo Reply received"@),
        conclusion is IcmpResponseIndeterminate || conclusion is NeighborResolutionIndeterminate
            || conclusion is PathResponseIndeterminate
            ==> text::mentions(completed::note_text(conclusion), "inconclusive"@),
        conclusion is DefinitiveNoPath
            ==> text::mentions(completed::note_text(conclusion), "no usable path"@),
        conclusion is NeighborResolutionFailed || conclusion is NeighborResolutionIndeterminate
            ==> text::mentions(completed::note_text(conclusion), "Neighbor resolution"@),
        conclusion is NeighborResolutionFailed || conclusion is HostnameResolutionIndeterminate
            || conclusion is TcpExplicitFailure
            ==> text::mentions(completed::note_text(conclusion), "failed"@),
        conclusion is FirstHopResponded
            ==> text::mentions(completed::note_text(conclusion), "first hop replied"@),
        conclusion is MultiplePathRespondersObserved
            ==> text::mentions(completed::note_text(conclusion), "More than one responder"@),
        conclusion is PathEndpointResponded || conclusion is PathExplicitlyTerminated
            || conclusion is PathResponseIndeterminate
            || conclusion is PathLimitReachedWithoutEndpointEvidence
            ==> text::mentions(completed::note_text(conclusion), "ath diagnosis"@),
        conclusion is PathEndpointResponded
            ==> text::mentions(completed::note_text(conclusion), "endpoint response"@),
        conclusion is PathLimitReachedWithoutEndpointEvidence
            ==> text::mentions(
                completed::note_text(conclusion),
                "hop limit without endpoint evidence"@,
            ),
        conclusion is HostnameResolved || conclusion is HostnameNoFormalTargets
            || conclusion is HostnameResolutionDefinitiveNegative
            || conclusion is HostnameResolutionNoUsableAddress
            || conclusion is HostnameResolutionIndeterminate
            ==> text::mentions(completed::note_text(conclusion), "System name resolution"@),
        conclusion is HostnameResolved
            ==> text::mentions(completed::note_text(conclusion), "produced destination addresses"@),
        conclusion is HostnameNoFormalTargets
            ==> text::mentions(completed::note_text(conclusion), "no usable destination address"@),
        conclusion is HostnameResolutionDefinitiveNegative
            ==> text::mentions(completed::note_text(conclusion), "definitive negative answer"@),
        conclusion is HostnameResolutionNoUsableAddress
            ==> text::mentions(completed::note_text(conclusion), "no usable IPv4 or IPv6 address"@),
        conclusion is HostnameResolutionIndeterminate
            ==> text::mentions(completed::note_text(conclusion), "without a definitive answer"@),
        conclusion is AllTargetsSatisfied
            ==> text::mentions(completed::note_text(conclusion), "Every address passed cleanly"@),
        conclusion is TargetsSatisfiedWithAnomaly
            ==> text::mentions(completed::note_text(conclusion), "eventually responded"@),
        conclusion is TargetResultsMixed
            ==> text::mentions(completed::note_text(conclusion), "different results"@),
        conclusion is NoTargetCleanlySatisfied
            ==> text::mentions(completed::note_text(conclusion), "No address passed cleanly"@),
        conclusion is CapabilityLimited
            ==> text::mentions(completed::note_text(conclusion), "could not safely perform"@),
{
    let shown = completed::note_text(conclusion);
    reveal_strlit("TCP");
    reveal_strlit("ICMP");
    reveal_strlit("connection succeeded");
    reveal_strlit("after an earlier timeout");
    reveal_strlit("refused");
    reveal_strlit("timed out");
    reveal_strlit("explicit");
    reveal_strlit("replied to ICMP Echo");
    reveal_strlit("Echo Reply received");
    reveal_strlit("inconclusive");
    reveal_strlit("no usable path");
    reveal_strlit("Neighbor resolution");
    reveal_strlit("failed");
    reveal_strlit("first hop replied");
    reveal_strlit("More than one responder");
    reveal_strlit("ath diagnosis");
    reveal_strlit("endpoint response");
    reveal_strlit("hop limit without endpoint evidence");
    reveal_strlit("System name resolution");
    reveal_strlit("produced destination addresses");
    reveal_strlit("no usable destination address");
    reveal_strlit("definitive negative answer");
    reveal_strlit("no usable IPv4 or IPv6 address");
    reveal_strlit("without a definitive answer");
    reveal_strlit("Every address passed cleanly");
    reveal_strlit("eventually responded");
    reveal_strlit("different results");
    reveal_strlit("No address passed cleanly");
    reveal_strlit("could not safely perform");
    match conclusion {
        Conclusion::TcpConnectSucceeded => {
            reveal_strlit("TCP connection succeeded");
            lemma_mentions(shown, "TCP"@, 0);
            lemma_mentions(shown, "connection succeeded"@, 4);
        },
        Conclusion::TcpConnectSucceededAfterTimeout => {
            reveal_strlit("TCP connection succeeded only after an earlier timeout");
            lemma_mentions(shown, "TCP"@, 0);
            lemma_mentions(shown, "connection succeeded"@, 4);
            lemma_mentions(shown, "after an earlier timeout"@, 30);
        },
        Conclusion::TcpConnectionRefused => {
            reveal_strlit("TCP connection was explicitly refused");
            lemma_mentions(shown, "TCP"@, 0);
            lemma_mentions(shown, "refused"@, 30);
        },
        Conclusion::TcpExplicitFailure => {
            reveal_strlit("TCP connection failed with an explicit result");
            lemma_mentions(shown, "TCP"@, 0);
            lemma_mentions(shown, "explicit"@, 30);
            lemma_mentions(shown, "failed"@, 15);
        },
        Conclusion::TcpConnectTimedOut => {
            reveal_strlit("TCP connection timed out twice");
            lemma_mentions(shown, "TCP"@, 0);
            lemma_mentions(shown, "timed out"@, 15);
        },
        Conclusion::TcpTimedOutButTargetIcmpResponded => {
            reveal_strlit("TCP timed out, but the target IP replied to ICMP Echo");
            lemma_mentions(shown, "TCP"@, 0);
            lemma_mentions(shown, "ICMP"@, 44);
            lemma_mentions(shown, "timed out"@, 4);
            lemma_mentions(shown, "replied to ICMP Echo"@, 33);
        },
        Conclusion::TcpTimedOutWithExplicitIcmpResult => {
            reveal_strlit("TCP timed out and ICMP returned an explicit result");
            lemma_mentions(shown, "TCP"@, 0);
            lemma_mentions(shown, "ICMP"@, 18);
            lemma_mentions(shown, "timed out"@, 4);
            lemma_mentions(shown, "explicit"@, 35);
        },
        Conclusion::IcmpEchoReplied => {
            reveal_strlit("ICMP Echo Reply received");
            lemma_mentions(shown, "ICMP"@, 0);
            lemma_mentions(shown, "Echo Reply received"@, 5);
        },
        Conclusion::IcmpEchoRepliedAfterTimeout => {
            reveal_strlit("ICMP Echo Reply received only after an earlier timeout");
            lemma_mentions(shown, "ICMP"@, 0);
            lemma_mentions(shown, "after an earlier timeout"@, 30);
            lemma_mentions(shown, "Echo Reply received"@, 5);
        },
        Conclusion::IcmpExplicitFailure => {
            reveal_strlit("ICMP returned an explicit failure result");
            lemma_mentions(shown, "ICMP"@, 0);
            lemma_mentions(shown, "explicit"@, 17);
        },
        Conclusion::IcmpEchoTimedOut => {
            reveal_strlit("ICMP Echo timed out twice");
            lemma_mentions(shown, "ICMP"@, 0);
            lemma_mentions(shown, "timed out"@, 10);
        },
        Conclusion::IcmpResponseIndeterminate => {
            reveal_strlit("ICMP response remained inconclusive");
            lemma_mentions(shown, "ICMP"@, 0);
            lemma_mentions(shown, "inconclusive"@, 23);
        },
        Conclusion::DefinitiveNoPath => {
            reveal_strlit("Snapshot path inference proved no usable path");
            lemma_mentions(shown, "no usable path"@, 31);
        },
        Conclusion::NeighborResolutionFailed => {
            reveal_strlit("Required local Neighbor resolution failed");
            lemma_mentions(shown, "Neighbor resolution"@, 15);
            lemma_mentions(shown, "failed"@, 35);
        },
        Conclusion::NeighborResolutionIndeterminate => {
            reveal_strlit("Required local Neighbor resolution remained inconclusive");
            lemma_mentions(shown, "inconclusive"@, 44);
            lemma_mentions(shown, "Neighbor resolution"@, 15);
        },
        Conclusion::FirstHopResponded => {
            reveal_strlit("The targeted first hop replied directly");
            lemma_mentions(shown, "first hop replied"@, 13);
        },
        Conclusion::MultiplePathRespondersObserved => {
            reveal_strlit("More than one responder was observed at the same path hop");
            lemma_mentions(shown, "More than one responder"@, 0);
        },
        Conclusion::PathEndpointResponded => {
            reveal_strlit("Later path diagnosis observed a correlated endpoint response; it does not erase the primary failure");
            lemma_mentions(shown, "ath diagnosis"@, 7);
            lemma_mentions(shown, "endpoint response"@, 43);
        },
        Conclusion::PathExplicitlyTerminated => {
            reveal_strlit("Path diagnosis ended with a correlated explicit network error");
            lemma_mentions(shown, "explicit"@, 39);
            lemma_mentions(shown, "ath diagnosis"@, 1);
        },
        Conclusion::PathResponseIndeterminate => {
            reveal_strlit("Path diagnosis received a correlated but inconclusive response");
            lemma_mentions(shown, "inconclusive"@, 41);
            lemma_mentions(shown, "ath diagnosis"@, 1);
        },
        Conclusion::PathLimitReachedWithoutEndpointEvidence => {
            reveal_strlit("Path diagnosis reached its hop limit without endpoint evidence");
            lemma_mentions(shown, "ath diagnosis"@, 1);
            lemma_mentions(shown, "hop limit without endpoint evidence"@, 27);
        },
        Conclusion::HostnameResolved => {
            reveal_strlit("System name resolution produced destination addresses");
            lemma_mentions(shown, "System name resolution"@, 0);
            lemma_mentions(shown, "produced destination addresses"@, 23);
        },
        Conclusion::HostnameNoFormalTargets => {
            reveal_strlit("System name resolution produced no usable destination address");
            lemma_mentions(shown, "System name resolution"@, 0);
            lemma_mentions(shown, "no usable destination address"@, 32);
        },
        Conclusion::HostnameResolutionDefinitiveNegative => {
            reveal_strlit("System name resolution returned a definitive negative answer");
            lemma_mentions(shown, "System name resolution"@, 0);
            lemma_mentions(shown, "definitive negative answer"@, 34);
        },
        Conclusion::HostnameResolutionNoUsableAddress => {
            reveal_strlit("System name resolution returned no usable IPv4 or IPv6 address");
            lemma_mentions(shown, "System name resolution"@, 0);
            lemma_mentions(shown, "no usable IPv4 or IPv6 address"@, 32);
        },
        Conclusion::HostnameResolutionIndeterminate => {
            reveal_strlit("System name resolution failed without a definitive answer");
            lemma_mentions(shown, "failed"@, 23);
            lemma_mentions(shown, "System name resolution"@, 0);
            lemma_mentions(shown, "without a definitive answer"@, 30);
        },
        Conclusion::AllTargetsSatisfied => {
            reveal_strlit("Every address passed cleanly");
            lemma_mentions(shown, "Every address passed cleanly"@, 0);
        },
        Conclusion::TargetsSatisfiedWithAnomaly => {
            reveal_strlit("Every address eventually responded, with an earlier anomaly retained");
            lemma_mentions(shown, "eventually responded"@, 14);
        },
        Conclusion::TargetResultsMixed => {
            reveal_strlit("Different addresses produced different results");
            lemma_mentions(shown, "different results"@, 29);
        },
        Conclusion::NoTargetCleanlySatisfied => {
            reveal_strlit("No address passed cleanly");
            lemma_mentions(shown, "No address passed cleanly"@, 0);
        },
        Conclusion::CapabilityLimited => {
            reveal_strlit("The primary result is retained, but this system could not safely perform a deeper diagnostic step");
            lemma_mentions(shown, "could not safely perform"@, 48);
        },
    }
}

/// What is said of a target that led to a conclusion names the protocols that were tried and what
/// they showed.
pub proof fn observations_say_what_was_concluded(conclusion: Conclusion)
    ensures
        conclusion is TcpConnectSucceededAfterTimeout || conclusion is TcpExplicitFailure
            || conclusion is TcpTimedOutButTargetIcmpResponded
            || conclusion is TcpTimedOutWithExplicitIcmpResult
            ==> text::mentions(completed::observation_text(conclusion), "TCP"@),
        conclusion is IcmpEchoRepliedAfterTimeout || conclusion is IcmpExplicitFailure
            || conclusion is IcmpEchoTimedOut || conclusion is IcmpResponseIndeterminate
            || conclusion is TcpTimedOutButTargetIcmpResponded
            || conclusion is TcpTimedOutWithExplicitIcmpResult
            ==> text::mentions(completed::observation_text(conclusion), "ICMP"@),
        conclusion is TcpConnectSucceededAfterTimeout
            || conclusion is IcmpEchoRepliedAfterTimeout
            ==> text::mentions(
                completed::observation_text(conclusion),
                "on retry after an earlier timeout"@,
            ),
        conclusion is TcpExplicitFailure
            ==> text::mentions(completed::observation_text(conclusion), "connection failed"@),
        conclusion is TcpTimedOutButTargetIcmpResponded
            || conclusion is TcpTimedOutWithExplicitIcmpResult
            ==> text::mentions(completed::observation_text(conclusion), "timed out twice"@),
        conclusion is TcpTimedOutButTargetIcmpResponded
            ==> text::mentions(completed::observation_text(conclusion), "Echo replied"@),
        conclusion is TcpExplicitFailure || conclusion is TcpTimedOutWithExplicitIcmpResult
            || conclusion is IcmpExplicitFailure
            ==> text::mentions(completed::observation_text(conclusion), "explicit network result"@),
        conclusion is IcmpEchoRepliedAfterTimeout || conclusion is IcmpEchoTimedOut
            ==> text::mentions(completed::observation_text(conclusion), "Echo Reply"@),
        conclusion is IcmpEchoTimedOut
            ==> text::mentions(completed::observation_text(conclusion), "No ICMP Echo Reply"@),
        conclusion is IcmpResponseIndeterminate
            ==> text::mentions(completed::observation_text(conclusion), "did not prove success"@),
        conclusion is DefinitiveNoPath
            ==> text::mentions(completed::observation_text(conclusion), "no usable path"@),
        conclusion is NeighborResolutionIndeterminate
            ==> text::mentions(
                completed::observation_text(conclusion),
                "Neighbor resolution was inconclusive"@,
            ),
{
    let shown = completed::observation_text(conclusion);
    reveal_strlit("TCP");
    reveal_strlit("ICMP");
    reveal_strlit("on retry after an earlier timeout");
    reveal_strlit("connection failed");
    reveal_strlit("timed out twice");
    reveal_strlit("Echo replied");
    reveal_strlit("explicit network result");
    reveal_strlit("Echo Reply");
    reveal_strlit("No ICMP Echo Reply");
    reveal_strlit("did not prove success");
    reveal_strlit("no usable path");
    reveal_strlit("Neighbor resolution was inconclusive");
    match conclusion {
        Conclusion::TcpConnectSucceededAfterTimeout => {
            reveal_strlit("TCP connection succeeded on retry after an earlier timeout");
            lemma_mentions(shown, "TCP"@, 0);
            lemma_mentions(shown, "on retry after an earlier timeout"@, 25);
        },
        Conclusion::TcpExplicitFailure => {
            reveal_strlit("TCP connection failed with an explicit network result");
            lemma_mentions(shown, "TCP"@, 0);
            lemma_mentions(shown, "connection failed"@, 4);
            lemma_mentions(shown, "explicit network result"@, 30);
        },
        Conclusion::TcpTimedOutButTargetIcmpResponded => {
            reveal_strlit("TCP timed out twice; ICMP Echo replied");
            lemma_mentions(shown, "TCP"@, 0);
            lemma_mentions(shown, "ICMP"@, 21);
            lemma_mentions(shown, "timed out twice"@, 4);
            lemma_mentions(shown, "Echo replied"@, 26);
        },
        Conclusion::TcpTimedOutWithExplicitIcmpResult => {
            reveal_strlit("TCP timed out twice; ICMP returned an explicit network result");
            lemma_mentions(shown, "TCP"@, 0);
            lemma_mentions(shown, "ICMP"@, 21);
            lemma_mentions(shown, "timed out twice"@, 4);
            lemma_mentions(shown, "explicit network result"@, 38);
        },
        Conclusion::IcmpEchoRepliedAfterTimeout => {
            reveal_strlit("ICMP Echo Reply received on retry after an earlier timeout");
            lemma_mentions(shown, "ICMP"@, 0);
            lemma_mentions(shown, "on retry after an earlier timeout"@, 25);
            lemma_mentions(shown, "Echo Reply"@, 5);
        },
        Conclusion::IcmpExplicitFailure => {
            reveal_strlit("ICMP returned an explicit network result");
            lemma_mentions(shown, "ICMP"@, 0);
            lemma_mentions(shown, "explicit network result"@, 17);
        },
        Conclusion::IcmpEchoTimedOut => {
            reveal_strlit("No ICMP Echo Reply after two attempts");
            lemma_mentions(shown, "ICMP"@, 3);
            lemma_mentions(shown, "Echo Reply"@, 8);
            lemma_mentions(shown, "No ICMP Echo Reply"@, 0);
        },
        Conclusion::IcmpResponseIndeterminate => {
            reveal_strlit("ICMP response did not prove success or a definite failure");
            lemma_mentions(shown, "ICMP"@, 0);
            lemma_mentions(shown, "did not prove success"@, 14);
        },
        Conclusion::DefinitiveNoPath => {
            reveal_strlit("Local network facts prove there is no usable path");
            lemma_mentions(shown, "no usable path"@, 35);
        },
        Conclusion::NeighborResolutionIndeterminate => {
            reveal_strlit("Required local Neighbor resolution was inconclusive");
            lemma_mentions(shown, "Neighbor resolution was inconclusive"@, 15);
        },
        _ => {},
    }
}

/// The result of a TCP attempt is told as what it was.
pub proof fn connections_are_called_what_came_of_them(result: TcpAttemptResultView)
    ensures
        result is Connected ==> text::mentions(completed::tcp_text(result), "succeeded"@),
        result is ConnectionRefused ==> text::mentions(completed::tcp_text(result), "refused"@),
        result is NoRoute ==> text::mentions(completed::tcp_text(result), "no route"@),
        result is NetworkUnreachable
            ==> text::mentions(completed::tcp_text(result), "network unreachable"@),
        result is HostUnreachable
            ==> text::mentions(completed::tcp_text(result), "host unreachable"@),
        result is PermissionDenied ==> text::mentions(completed::tcp_text(result), "denied"@),
        result is ResourceExhausted ==> text::mentions(completed::tcp_text(result), "exhausted"@),
        result is Timeout ==> text::mentions(completed::tcp_text(result), "before the deadline"@),
{
    let shown = completed::tcp_text(result);
    reveal_strlit("succeeded");
    reveal_strlit("refused");
    reveal_strlit("no route");
    reveal_strlit("network unreachable");
    reveal_strlit("host unreachable");
    reveal_strlit("denied");
    reveal_strlit("exhausted");
    reveal_strlit("before the deadline");
    match result {
        TcpAttemptResultView::Connected { .. } => {
            reveal_strlit("TCP connection succeeded");
            lemma_mentions(shown, "succeeded"@, 15);
        },
        TcpAttemptResultView::ConnectionRefused => {
            reveal_strlit("TCP connection was refused");
            lemma_mentions(shown, "refused"@, 19);
        },
        TcpAttemptResultView::NoRoute => {
            reveal_strlit("the operating system reported no route");
            lemma_mentions(shown, "no route"@, 30);
        },
        TcpAttemptResultView::NetworkUnreachable => {
            reveal_strlit("the operating system reported the network unreachable");
            lemma_mentions(shown, "network unreachable"@, 34);
        },
        TcpAttemptResultView::HostUnreachable => {
            reveal_strlit("the operating system reported the host unreachable");
            lemma_mentions(shown, "host unreachable"@, 34);
        },
        TcpAttemptResultView::PermissionDenied => {
            reveal_strlit("the operating system denied the connection attempt");
            lemma_mentions(shown, "denied"@, 21);
        },
        TcpAttemptResultView::ResourceExhausted => {
            reveal_strlit("local networking resources were exhausted");
            lemma_mentions(shown, "exhausted"@, 32);
        },
        TcpAttemptResultView::Timeout => {
            reveal_strlit("no TCP result before the deadline");
            lemma_mentions(shown, "before the deadline"@, 14);
        },
        _ => {},
    }
}

/// An ICMP message is called by its kind.
pub proof fn icmp_messages_are_called_by_their_kind(kind: IcmpMessageKind)
    ensures
        kind is EchoReply ==> text::mentions(completed::icmp_text(kind), "Reply"@),
        kind is DestinationUnreachable
            ==> text::mentions(completed::icmp_text(kind), "Destination Unreachable"@),
        kind is TimeExceeded ==> text::mentions(completed::icmp_text(kind), "Time Exceeded"@),
        kind is PacketTooBig ==> text::mentions(completed::icmp_text(kind), "Packet Too Big"@),
        kind is ParameterProblem
            ==> text::mentions(completed::icmp_text(kind), "Parameter Problem"@),
        kind is Other ==> text::mentions(completed::icmp_text(kind), "other"@),
{
    let shown = completed::icmp_text(kind);
    reveal_strlit("Reply");
    reveal_strlit("Destination Unreachable");
    reveal_strlit("Time Exceeded");
    reveal_strlit("Packet Too Big");
    reveal_strlit("Parameter Problem");
    reveal_strlit("other");
    match kind {
        IcmpMessageKind::EchoReply => {
            reveal_strlit("Reply");
            lemma_mentions(shown, "Reply"@, 0);
        },
        IcmpMessageKind::DestinationUnreachable => {
            reveal_strlit("ICMP Destination Unreachable");
            lemma_mentions(shown, "Destination Unreachable"@, 5);
        },
        IcmpMessageKind::TimeExceeded => {
            reveal_strlit("ICMP Time Exceeded");
            lemma_mentions(shown, "Time Exceeded"@, 5);
        },
        IcmpMessageKind::PacketTooBig => {
            reveal_strlit("ICMP Packet Too Big");
            lemma_mentions(shown, "Packet Too Big"@, 5);
        },
        IcmpMessageKind::ParameterProblem => {
            reveal_strlit("ICMP Parameter Problem");
            lemma_mentions(shown, "Parameter Problem"@, 5);
        },
        IcmpMessageKind::Other => {
            reveal_strlit("other ICMP message");
            lemma_mentions(shown, "other"@, 0);
        },
    }
}

/// The outcome of a target is marked and named as what it is.
pub proof fn outcomes_are_called_what_they_are(outcome: PrimaryOutcome)
    ensures
        outcome is Satisfied ==> text::mentions(completed::status_text(outcome), "✓ PASS"@),
        outcome is SatisfiedWithAnomaly
            ==> text::mentions(completed::status_text(outcome), "RETRIED"@),
        outcome is NotSatisfied ==> text::mentions(completed::status_text(outcome), "FAILED"@),
        outcome is Indeterminate
            ==> text::mentions(completed::status_text(outcome), "INCONCLUSIVE"@),
{
    let shown = completed::status_text(outcome);
    reveal_strlit("✓ PASS");
    reveal_strlit("RETRIED");
    reveal_strlit("FAILED");
    reveal_strlit("INCONCLUSIVE");
    match outcome {
        PrimaryOutcome::Satisfied => {
            reveal_strlit("✓ PASS");
            lemma_mentions(shown, "✓ PASS"@, 0);
        },
        PrimaryOutcome::SatisfiedWithAnomaly => {
            reveal_strlit("! RETRIED");
            lemma_mentions(shown, "RETRIED"@, 2);
        },
        PrimaryOutcome::NotSatisfied => {
            reveal_strlit("× FAILED");
            lemma_mentions(shown, "FAILED"@, 2);
        },
        PrimaryOutcome::Indeterminate => {
            reveal_strlit("? INCONCLUSIVE");
            lemma_mentions(shown, "INCONCLUSIVE"@, 2);
        },
    }
}

/// What went wrong is explained by the kind of error.
pub proof fn errors_are_explained_by_their_kind(kind: ExecutionErrorKind)
    ensures
        kind is InvalidInput
            ==> text::mentions(error::explanation_text(kind), "Reach could not understand"@),
        kind is ScopedIpv6BindingFailed
            ==> text::mentions(error::explanation_text(kind), "IPv6 scope"@),
        kind is RequiredCapabilityUnavailable
            ==> text::mentions(error::explanation_text(kind), "cannot perform a check"@),
        kind is ResourceExhausted
            ==> text::mentions(
                error::explanation_text(kind),
                "ran out of local networking resources"@,
            ),
        kind is InternalFailure
            ==> text::mentions(
                error::explanation_text(kind),
                "internal or operating-system error"@,
            ),
{
    let shown = error::explanation_text(kind);
    reveal_strlit("Reach could not understand");
    reveal_strlit("IPv6 scope");
    reveal_strlit("cannot perform a check");
    reveal_strlit("ran out of local networking resources");
    reveal_strlit("internal or operating-system error");
    match kind {
        ExecutionErrorKind::InvalidInput => {
            reveal_strlit("Reach could not understand the requested address or TCP port.");
            lemma_mentions(shown, "Reach could not understand"@, 0);
        },
        ExecutionErrorKind::ScopedIpv6BindingFailed => {
            reveal_strlit("Reach could not match the IPv6 scope to a local network interface.");
            lemma_mentions(shown, "IPv6 scope"@, 26);
        },
        ExecutionErrorKind::RequiredCapabilityUnavailable => {
            reveal_strlit("This system cannot perform a check that is required for a reliable answer.");
            lemma_mentions(shown, "cannot perform a check"@, 12);
        },
        ExecutionErrorKind::ResourceExhausted => {
            reveal_strlit("This computer ran out of local networking resources before Reach could finish.");
            lemma_mentions(shown, "ran out of local networking resources"@, 14);
        },
        ExecutionErrorKind::InternalFailure => {
            reveal_strlit("Reach encountered an internal or operating-system error before it could produce a reliable answer.");
            lemma_mentions(shown, "internal or operating-system error"@, 21);
        },
    }
}

/// An error is called by its kind.
pub proof fn errors_are_called_by_their_kind(kind: ExecutionErrorKind)
    ensures
        kind is InvalidInput ==> text::mentions(error::type_text(kind), "Invalid input"@),
        kind is ScopedIpv6BindingFailed ==> text::mentions(error::type_text(kind), "IPv6 scope"@),
        kind is RequiredCapabilityUnavailable
            ==> text::mentions(error::type_text(kind), "unavailable"@),
        kind is ResourceExhausted ==> text::mentions(error::type_text(kind), "exhausted"@),
        kind is InternalFailure ==> text::mentions(error::type_text(kind), "Internal"@),
{
    let shown = error::type_text(kind);
    reveal_strlit("Invalid input");
    reveal_strlit("IPv6 scope");
    reveal_strlit("unavailable");
    reveal_strlit("exhausted");
    reveal_strlit("Internal");
    match kind {
        ExecutionErrorKind::InvalidInput => {
            reveal_strlit("Invalid input");
            lemma_mentions(shown, "Invalid input"@, 0);
        },
        ExecutionErrorKind::ScopedIpv6BindingFailed => {
            reveal_strlit("IPv6 scope binding failed");
            lemma_mentions(shown, "IPv6 scope"@, 0);
        },
        ExecutionErrorKind::RequiredCapabilityUnavailable => {
            reveal_strlit("Required capability unavailable");
            lemma_mentions(shown, "unavailable"@, 20);
        },
        ExecutionErrorKind::ResourceExhausted => {
            reveal_strlit("Local resources exhausted");
            lemma_mentions(shown, "exhausted"@, 16);
        },
        ExecutionErrorKind::InternalFailure => {
            reveal_strlit("Internal execution failure");
            lemma_mentions(shown, "Internal"@, 0);
        },
    }
}

/// What to try first fits the kind of error.
pub proof fn first_actions_fit_the_error(kind: ExecutionErrorKind)
    ensures
        kind is InvalidInput
            ==> text::mentions(
                error::first_action_text(kind),
                "Check the address and optional TCP port"@,
            ),
        kind is ScopedIpv6BindingFailed
            ==> text::mentions(error::first_action_text(kind), "interface name or index"@),
        kind is RequiredCapabilityUnavailable
            ==> text::mentions(error::first_action_text(kind), "technical reason below"@),
        kind is ResourceExhausted
            ==> text::mentions(error::first_action_text(kind), "Close applications"@),
        kind is InternalFailure
            ==> text::mentions(error::first_action_text(kind), "same command once more"@),
{
    let shown = error::first_action_text(kind);
    reveal_strlit("Check the address and optional TCP port");
    reveal_strlit("interface name or index");
    reveal_strlit("technical reason below");
    reveal_strlit("Close applications");
    reveal_strlit("same command once more");
    match kind {
        ExecutionErrorKind::InvalidInput => {
            reveal_strlit("Check the address and optional TCP port, then run the command again.");
            lemma_mentions(shown, "Check the address and optional TCP port"@, 0);
        },
        ExecutionErrorKind::ScopedIpv6BindingFailed => {
            reveal_strlit("Check that the interface name or index after % still exists on this computer.");
            lemma_mentions(shown, "interface name or index"@, 15);
        },
        ExecutionErrorKind::RequiredCapabilityUnavailable => {
            reveal_strlit("Read the technical reason below; this check cannot be replaced with a different protocol without changing its meaning.");
            lemma_mentions(shown, "technical reason below"@, 9);
        },
        ExecutionErrorKind::ResourceExhausted => {
            reveal_strlit("Close applications that are using many network connections, then run the check again.");
            lemma_mentions(shown, "Close applications"@, 0);
        },
        ExecutionErrorKind::InternalFailure => {
            reveal_strlit("Run the same command once more.");
            lemma_mentions(shown, "same command once more"@, 8);
        },
    }
}

/// What to do where that did not help fits the kind of error, too.
pub proof fn second_actions_fit_the_error(kind: ExecutionErrorKind)
    ensures
        kind is InvalidInput ==> text::mentions(error::second_action_text(kind), "--help"@),
        kind is ScopedIpv6BindingFailed
            ==> text::mentions(error::second_action_text(kind), "correct scope"@),
        kind is RequiredCapabilityUnavailable
            ==> text::mentions(error::second_action_text(kind), "capability should be available"@),
        kind is ResourceExhausted
            ==> text::mentions(error::second_action_text(kind), "problem continues"@),
        kind is InternalFailure
            ==> text::mentions(error::second_action_text(kind), "fails again"@),
{
    let shown = error::second_action_text(kind);
    reveal_strlit("--help");
    reveal_strlit("correct scope");
    reveal_strlit("capability should be available");
    reveal_strlit("problem continues");
    reveal_strlit("fails again");
    match kind {
        ExecutionErrorKind::InvalidInput => {
            reveal_strlit("Run reach --help to see accepted input examples.");
            lemma_mentions(shown, "--help"@, 10);
        },
        ExecutionErrorKind::ScopedIpv6BindingFailed => {
            reveal_strlit("Run the command again with the correct scope, for example fe80::1%12.");
            lemma_mentions(shown, "correct scope"@, 31);
        },
        ExecutionErrorKind::RequiredCapabilityUnavailable => {
            reveal_strlit("Send this report to your support team if the required capability should be available on this computer.");
            lemma_mentions(shown, "capability should be available"@, 54);
        },
        ExecutionErrorKind::ResourceExhausted => {
            reveal_strlit("If the problem continues, send this report to your support team.");
            lemma_mentions(shown, "problem continues"@, 7);
        },
        ExecutionErrorKind::InternalFailure => {
            reveal_strlit("If it fails again, send this entire report and the command you used to the Reach maintainer or your support team.");
            lemma_mentions(shown, "fails again"@, 6);
        },
    }
}

/// The state of a neighbor is called what it is.
pub proof fn neighbor_states_are_called_what_they_are(state: NeighborState)
    ensures
        state is Absent ==> text::mentions(completed::neighbor_text(state), "absent"@),
        state is Resolving ==> text::mentions(completed::neighbor_text(state), "resolving"@),
        state is Usable ==> text::mentions(completed::neighbor_text(state), "usable"@),
        state is TerminalFailure ==> text::mentions(completed::neighbor_text(state), "failure"@),
        state is Unknown ==> text::mentions(completed::neighbor_text(state), "unknown"@),
{
    let shown = completed::neighbor_text(state);
    reveal_strlit("absent");
    reveal_strlit("resolving");
    reveal_strlit("usable");
    reveal_strlit("failure");
    reveal_strlit("unknown");
    match state {
        NeighborState::Absent => {
            reveal_strlit("absent (no matching entry)");
            lemma_mentions(shown, "absent"@, 0);
        },
        NeighborState::Resolving => {
            reveal_strlit("resolving");
            lemma_mentions(shown, "resolving"@, 0);
        },
        NeighborState::Usable => {
            reveal_strlit("usable");
            lemma_mentions(shown, "usable"@, 0);
        },
        NeighborState::TerminalFailure => {
            reveal_strlit("terminal failure");
            lemma_mentions(shown, "failure"@, 9);
        },
        NeighborState::Unknown => {
            reveal_strlit("unknown state");
            lemma_mentions(shown, "unknown"@, 0);
        },
    }
}

/// Why a capability is missing is told by its reason.
pub proof fn missing_capabilities_are_explained(reason: CapabilityReasonView)
    ensures
        reason is NotExposedByOperatingSystem
            ==> text::mentions(completed::reason_text(reason), "not exposed"@),
        reason is OrdinaryUserPermissionDenied
            ==> text::mentions(completed::reason_text(reason), "permission was denied"@),
        reason is SnapshotInconsistent
            ==> text::mentions(completed::reason_text(reason), "inconsistency"@),
        reason is QuerySemanticsUnavailable
            ==> text::mentions(completed::reason_text(reason), "read-only query"@),
        reason is AttemptCorrelationUnavailable
            ==> text::mentions(completed::reason_text(reason), "correlated"@),
        reason is UnsupportedEnvironment
            ==> text::mentions(completed::reason_text(reason), "environment"@),
{
    let shown = completed::reason_text(reason);
    reveal_strlit("not exposed");
    reveal_strlit("permission was denied");
    reveal_strlit("inconsistency");
    reveal_strlit("read-only query");
    reveal_strlit("correlated");
    reveal_strlit("environment");
    match reason {
        CapabilityReasonView::NotExposedByOperatingSystem => {
            reveal_strlit("not exposed by the operating system");
            lemma_mentions(shown, "not exposed"@, 0);
        },
        CapabilityReasonView::OrdinaryUserPermissionDenied => {
            reveal_strlit("ordinary-user permission was denied");
            lemma_mentions(shown, "permission was denied"@, 14);
        },
        CapabilityReasonView::SnapshotInconsistent => {
            reveal_strlit("a captured-fact cross-reference inconsistency was found");
            lemma_mentions(shown, "inconsistency"@, 32);
        },
        CapabilityReasonView::QuerySemanticsUnavailable => {
            reveal_strlit("the required read-only query is not available");
            lemma_mentions(shown, "read-only query"@, 13);
        },
        CapabilityReasonView::AttemptCorrelationUnavailable => {
            reveal_strlit("responses cannot be correlated reliably to the originating attempt");
            lemma_mentions(shown, "correlated"@, 20);
        },
        CapabilityReasonView::UnsupportedEnvironment => {
            reveal_strlit("the current environment is not supported");
            lemma_mentions(shown, "environment"@, 12);
        },
        _ => {},
    }
}

/// A DNS response code is called by its name.
pub proof fn response_codes_are_called_by_their_name(code: DnsResponseCode)
    ensures
        code is NoError ==> text::mentions(name_resolution::response_code_text(code), "No error"@),
        code is FormErr ==> text::mentions(name_resolution::response_code_text(code), "FORMERR"@),
        code is ServFail
            ==> text::mentions(name_resolution::response_code_text(code), "SERVFAIL"@),
        code is NxDomain
            ==> text::mentions(name_resolution::response_code_text(code), "NXDOMAIN"@),
        code is NotImp ==> text::mentions(name_resolution::response_code_text(code), "NOTIMP"@),
        code is Refused ==> text::mentions(name_resolution::response_code_text(code), "REFUSED"@),
        code is Other ==> text::mentions(name_resolution::response_code_text(code), "other"@),
{
    let shown = name_resolution::response_code_text(code);
    reveal_strlit("No error");
    reveal_strlit("FORMERR");
    reveal_strlit("SERVFAIL");
    reveal_strlit("NXDOMAIN");
    reveal_strlit("NOTIMP");
    reveal_strlit("REFUSED");
    reveal_strlit("other");
    match code {
        DnsResponseCode::NoError => {
            reveal_strlit("No error");
            lemma_mentions(shown, "No error"@, 0);
        },
        DnsResponseCode::FormErr => {
            reveal_strlit("FORMERR");
            lemma_mentions(shown, "FORMERR"@, 0);
        },
        DnsResponseCode::ServFail => {
            reveal_strlit("SERVFAIL");
            lemma_mentions(shown, "SERVFAIL"@, 0);
        },
        DnsResponseCode::NxDomain => {
            reveal_strlit("NXDOMAIN");
            lemma_mentions(shown, "NXDOMAIN"@, 0);
        },
        DnsResponseCode::NotImp => {
            reveal_strlit("NOTIMP");
            lemma_mentions(shown, "NOTIMP"@, 0);
        },
        DnsResponseCode::Refused => {
            reveal_strlit("REFUSED");
            lemma_mentions(shown, "REFUSED"@, 0);
        },
        DnsResponseCode::Other(_) => {
            reveal_strlit("other response code");
            lemma_mentions(shown, "other"@, 0);
        },
    }
}

/// The source of an answer is called by its name.
pub proof fn sources_are_called_by_their_name(source: NameResolutionSource)
    ensures
        source is Hosts ==> text::mentions(name_resolution::source_text(source), "hosts"@),
        source is Dns ==> text::mentions(name_resolution::source_text(source), "DNS"@),
        source is SystemResolverOpaque
            ==> text::mentions(name_resolution::source_text(source), "System resolver"@),
        source is OtherPlatformSource
            ==> text::mentions(name_resolution::source_text(source), "platform"@),
        source is Unknown ==> text::mentions(name_resolution::source_text(source), "unknown"@),
{
    let shown = name_resolution::source_text(source);
    reveal_strlit("hosts");
    reveal_strlit("DNS");
    reveal_strlit("System resolver");
    reveal_strlit("platform");
    reveal_strlit("unknown");
    match source {
        NameResolutionSource::Hosts => {
            reveal_strlit("hosts");
            lemma_mentions(shown, "hosts"@, 0);
        },
        NameResolutionSource::Dns => {
            reveal_strlit("DNS");
            lemma_mentions(shown, "DNS"@, 0);
        },
        NameResolutionSource::SystemResolverOpaque => {
            reveal_strlit("System resolver");
            lemma_mentions(shown, "System resolver"@, 0);
        },
        NameResolutionSource::OtherPlatformSource => {
            reveal_strlit("platform source");
            lemma_mentions(shown, "platform"@, 0);
        },
        NameResolutionSource::Unknown => {
            reveal_strlit("unknown");
            lemma_mentions(shown, "unknown"@, 0);
        },
    }
}

/// What resolving a name led to is told as what it was.
pub proof fn lookups_are_called_what_came_of_them(outcome: NameResolutionEvidenceOutcome)
    ensures
        outcome is Succeeded
            ==> text::mentions(name_resolution::outcome_text(outcome), "destination addresses"@),
        outcome is SucceededWithoutUsableAddress
            ==> text::mentions(
                name_resolution::outcome_text(outcome),
                "completed, but returned no usable"@,
            ),
        outcome is NegativeWithoutUsableAddress
            ==> text::mentions(
                name_resolution::outcome_text(outcome),
                "no usable IPv4 or IPv6 address"@,
            ),
        outcome is NonDefinitiveFailure
            ==> text::mentions(
                name_resolution::outcome_text(outcome),
                "without a definitive answer"@,
            ),
{
    let shown = name_resolution::outcome_text(outcome);
    reveal_strlit("destination addresses");
    reveal_strlit("completed, but returned no usable");
    reveal_strlit("no usable IPv4 or IPv6 address");
    reveal_strlit("without a definitive answer");
    match outcome {
        NameResolutionEvidenceOutcome::Succeeded => {
            reveal_strlit("returned destination addresses");
            lemma_mentions(shown, "destination addresses"@, 9);
        },
        NameResolutionEvidenceOutcome::SucceededWithoutUsableAddress => {
            reveal_strlit("completed, but returned no usable IP address");
            lemma_mentions(shown, "completed, but returned no usable"@, 0);
        },
        NameResolutionEvidenceOutcome::NegativeWithoutUsableAddress => {
            reveal_strlit("returned no usable IPv4 or IPv6 address");
            lemma_mentions(shown, "no usable IPv4 or IPv6 address"@, 9);
        },
        NameResolutionEvidenceOutcome::NonDefinitiveFailure => {
            reveal_strlit("failed without a definitive answer");
            lemma_mentions(shown, "without a definitive answer"@, 7);
        },
    }
}

/// An error of the socket is said to agree with the snapshot where that saw no path, and to differ
/// where it saw one.
pub proof fn comparisons_fit_the_snapshot(status: InitialPathStatus)
    ensures
        status is UsablePath
            ==> text::mentions(observation::socket_comparison(status), "despite a usable"@),
        status is DefinitiveNoPath
            ==> text::mentions(
                observation::socket_comparison(status),
                "agrees with the initial no-path"@,
            ),
        status is UnknownPath
            ==> text::mentions(observation::socket_comparison(status), "remained unknown"@),
{
    let shown = observation::socket_comparison(status);
    reveal_strlit("despite a usable");
    reveal_strlit("agrees with the initial no-path");
    reveal_strlit("remained unknown");
    match status {
        InitialPathStatus::UsablePath => {
            reveal_strlit("the socket returned a network-path error despite a usable initial snapshot path");
            lemma_mentions(shown, "despite a usable"@, 41);
        },
        InitialPathStatus::DefinitiveNoPath => {
            reveal_strlit("the socket network-path error agrees with the initial no-path snapshot");
            lemma_mentions(shown, "agrees with the initial no-path"@, 30);
        },
        InitialPathStatus::UnknownPath => {
            reveal_strlit("the socket returned a network-path error while the initial path remained unknown");
            lemma_mentions(shown, "remained unknown"@, 64);
        },
    }
}

/// An error in the input says which part is wrong, and how.
pub proof fn input_errors_say_what_is_wrong(error: InputError)
    ensures
        error is EmptyAddress ==> text::mentions(error.shown(), "must not be empty"@),
        error is InvalidAddress
            ==> text::mentions(error.shown(), "not a valid hostname or IP literal"@),
        error is InvalidIpv6Scope ==> text::mentions(error.shown(), "IPv6 scope"@),
        error is InvalidPortSyntax
            ==> text::mentions(error.shown(), "only decimal digits"@),
        error is PortOutOfRange ==> text::mentions(error.shown(), "1..=65535"@),
{
    let shown = error.shown();
    reveal_strlit("must not be empty");
    reveal_strlit("not a valid hostname or IP literal");
    reveal_strlit("IPv6 scope");
    reveal_strlit("only decimal digits");
    reveal_strlit("1..=65535");
    match error {
        InputError::EmptyAddress => {
            reveal_strlit("address must not be empty");
            lemma_mentions(shown, "must not be empty"@, 8);
        },
        InputError::InvalidAddress => {
            reveal_strlit("address is not a valid hostname or IP literal");
            lemma_mentions(shown, "not a valid hostname or IP literal"@, 11);
        },
        InputError::InvalidIpv6Scope => {
            reveal_strlit("IPv6 scope syntax is invalid");
            lemma_mentions(shown, "IPv6 scope"@, 0);
        },
        InputError::InvalidPortSyntax => {
            reveal_strlit("port must contain only decimal digits");
            lemma_mentions(shown, "only decimal digits"@, 18);
        },
        InputError::PortOutOfRange => {
            reveal_strlit("port must be in the range 1..=65535");
            lemma_mentions(shown, "1..=65535"@, 26);
        },
    }
}

/// An error in a scope says whether the interfaces are not known, or none or several of them are
/// meant.
pub proof fn scope_errors_say_what_is_wrong(error: ScopeBindingError)
    ensures
        error is InterfacesUnavailable
            ==> text::mentions(error.shown(), "unavailable"@),
        error is InterfaceNotFound
            ==> text::mentions(error.shown(), "does not identify"@),
        error is AmbiguousInterface
            ==> text::mentions(error.shown(), "more than one interface"@),
{
    let shown = error.shown();
    reveal_strlit("unavailable");
    reveal_strlit("does not identify");
    reveal_strlit("more than one interface");
    match error {
        ScopeBindingError::InterfacesUnavailable => {
            reveal_strlit("the interface snapshot is unavailable, so the IPv6 scope cannot be confirmed");
            lemma_mentions(shown, "unavailable"@, 26);
        },
        ScopeBindingError::InterfaceNotFound => {
            reveal_strlit("the IPv6 scope does not identify an interface in the initial snapshot");
            lemma_mentions(shown, "does not identify"@, 15);
        },
        ScopeBindingError::AmbiguousInterface => {
            reveal_strlit("the IPv6 scope maps to more than one interface in the initial snapshot");
            lemma_mentions(shown, "more than one interface"@, 23);
        },
    }
}

/// The title of a report on input names what is wrong with it.
pub proof fn input_reports_have_their_own_titles(wrong: InputError)
    ensures
        wrong is EmptyAddress
            ==> text::mentions(error::input_title_text(wrong), "ADDRESS IS MISSING"@),
        wrong is InvalidAddress
            ==> text::mentions(error::input_title_text(wrong), "ADDRESS IS NOT VALID"@),
        wrong is InvalidIpv6Scope
            ==> text::mentions(error::input_title_text(wrong), "IPV6 SCOPE"@),
        wrong is InvalidPortSyntax
            ==> text::mentions(error::input_title_text(wrong), "TCP PORT IS NOT VALID"@),
        wrong is PortOutOfRange
            ==> text::mentions(error::input_title_text(wrong), "OUT OF RANGE"@),
{
    let shown = error::input_title_text(wrong);
    reveal_strlit("ADDRESS IS MISSING");
    reveal_strlit("ADDRESS IS NOT VALID");
    reveal_strlit("IPV6 SCOPE");
    reveal_strlit("TCP PORT IS NOT VALID");
    reveal_strlit("OUT OF RANGE");
    match wrong {
        InputError::EmptyAddress => {
            reveal_strlit("× ADDRESS IS MISSING");
            lemma_mentions(shown, "ADDRESS IS MISSING"@, 2);
        },
        InputError::InvalidAddress => {
            reveal_strlit("× ADDRESS IS NOT VALID");
            lemma_mentions(shown, "ADDRESS IS NOT VALID"@, 2);
        },
        InputError::InvalidIpv6Scope => {
            reveal_strlit("× IPV6 SCOPE IS NOT VALID");
            lemma_mentions(shown, "IPV6 SCOPE"@, 2);
        },
        InputError::InvalidPortSyntax => {
            reveal_strlit("× TCP PORT IS NOT VALID");
            lemma_mentions(shown, "TCP PORT IS NOT VALID"@, 2);
        },
        InputError::PortOutOfRange => {
            reveal_strlit("× TCP PORT IS OUT OF RANGE");
            lemma_mentions(shown, "OUT OF RANGE"@, 14);
        },
    }
}

/// What is wrong with the input is explained by the kind of error.
pub proof fn input_errors_are_explained(wrong: InputError)
    ensures
        wrong is EmptyAddress
            ==> text::mentions(
                error::input_explanation_text(wrong),
                "needs a hostname or IP address"@,
            ),
        wrong is InvalidAddress
            ==> text::mentions(error::input_explanation_text(wrong), "could not read the address"@),
        wrong is InvalidIpv6Scope
            ==> text::mentions(error::input_explanation_text(wrong), "IPv6 scope"@),
        wrong is InvalidPortSyntax
            ==> text::mentions(error::input_explanation_text(wrong), "digits only"@),
        wrong is PortOutOfRange
            ==> text::mentions(error::input_explanation_text(wrong), "from 1 through 65535"@),
{
    let shown = error::input_explanation_text(wrong);
    reveal_strlit("needs a hostname or IP address");
    reveal_strlit("could not read the address");
    reveal_strlit("IPv6 scope");
    reveal_strlit("digits only");
    reveal_strlit("from 1 through 65535");
    match wrong {
        InputError::EmptyAddress => {
            reveal_strlit("Reach needs a hostname or IP address before it can start a check.");
            lemma_mentions(shown, "needs a hostname or IP address"@, 6);
        },
        InputError::InvalidAddress => {
            reveal_strlit("Reach could not read the address as a hostname, IPv4 address, or IPv6 address.");
            lemma_mentions(shown, "could not read the address"@, 6);
        },
        InputError::InvalidIpv6Scope => {
            reveal_strlit("A link-local IPv6 scope must identify one local network interface.");
            lemma_mentions(shown, "IPv6 scope"@, 13);
        },
        InputError::InvalidPortSyntax => {
            reveal_strlit("The TCP port must contain digits only.");
            lemma_mentions(shown, "digits only"@, 26);
        },
        InputError::PortOutOfRange => {
            reveal_strlit("A TCP port must be a number from 1 through 65535.");
            lemma_mentions(shown, "from 1 through 65535"@, 28);
        },
    }
}

/// How to correct the input fits what is wrong with it.
pub proof fn input_errors_can_be_corrected(wrong: InputError)
    ensures
        wrong is EmptyAddress
            ==> text::mentions(error::input_action_text(wrong), "Enter a hostname"@),
        wrong is InvalidAddress
            ==> text::mentions(error::input_action_text(wrong), "Remove prefixes"@),
        wrong is InvalidIpv6Scope
            ==> text::mentions(error::input_action_text(wrong), "interface index or name"@),
        wrong is InvalidPortSyntax
            ==> text::mentions(error::input_action_text(wrong), "Use a number"@),
        wrong is PortOutOfRange
            ==> text::mentions(error::input_action_text(wrong), "Correct the port number"@),
{
    let shown = error::input_action_text(wrong);
    reveal_strlit("Enter a hostname");
    reveal_strlit("Remove prefixes");
    reveal_strlit("interface index or name");
    reveal_strlit("Use a number");
    reveal_strlit("Correct the port number");
    match wrong {
        InputError::EmptyAddress => {
            reveal_strlit("Enter a hostname, IPv4 address, or IPv6 address.");
            lemma_mentions(shown, "Enter a hostname"@, 0);
        },
        InputError::InvalidAddress => {
            reveal_strlit("Remove prefixes such as http://, paths such as /login, and embedded ports such as :443.");
            lemma_mentions(shown, "Remove prefixes"@, 0);
        },
        InputError::InvalidIpv6Scope => {
            reveal_strlit("Use an interface index or name after %, for example fe80::1%12.");
            lemma_mentions(shown, "interface index or name"@, 7);
        },
        InputError::InvalidPortSyntax => {
            reveal_strlit("Use a number from 1 through 65535, for example 443.");
            lemma_mentions(shown, "Use a number"@, 0);
        },
        InputError::PortOutOfRange => {
            reveal_strlit("Correct the port number and run the check again.");
            lemma_mentions(shown, "Correct the port number"@, 0);
        },
    }
}

} // verus!
