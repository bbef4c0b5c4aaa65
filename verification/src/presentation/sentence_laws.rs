//! The sentences of a report: what they say of the results, and what they advise.

use vstd::prelude::*;

use crate::number::NonZeroU16;
use crate::presentation;
use crate::presentation::completed;
use crate::presentation::content_laws;
use crate::presentation::name_resolution;
use crate::presentation::report_laws;
use crate::presentation::word_laws;
use crate::result::{
    AggregateOutcome, CompletedDiagnosticView, Conclusion, HostnameResolutionOutcomeView,
    PrimaryOutcome, TargetDiagnosticView,
};
use crate::text;

verus! {

/// The verdict on targets that all passed says that connections succeeded or that they replied,
/// for one target as for several.
pub proof fn passing_verdicts_say_so(run: CompletedDiagnosticView)
    requires
        run.aggregate_outcome == AggregateOutcome::AllSatisfied,
        run.targets.len() > 0,
    ensures
        completed::verdict_lines(run).len() == 1,
        run.request.port is Some ==> text::mentions(completed::verdict_lines(run)[0], "succeeded"@),
        run.request.port is None ==> text::mentions(
            completed::verdict_lines(run)[0],
            "replied to ICMP Echo"@,
        ),
{
    let none = Seq::<char>::empty();
    let shown = completed::passed_line(run);
    if run.targets.len() == 1 {
        content_laws::passed_targets_are_named(run);
    } else if let Some(port) = run.request.port {
        let front = "TCP connections to port "@ + completed::port_text(port);
        let back = text::decimal(run.targets.len()) + " IP addresses returned for "@
            + presentation::terminal_text(run.request.original_address) + "."@;
        reveal_strlit(" succeeded for all ");
        reveal_strlit("succeeded");
        word_laws::lemma_mentions(" succeeded for all "@, "succeeded"@, 1);
        content_laws::lemma_mentioned_within(front, " succeeded for all "@, back, "succeeded"@);
        assert(front + " succeeded for all "@ + back =~= shown);
    } else {
        let front = "All "@ + text::decimal(run.targets.len()) + " IP addresses returned for "@
            + presentation::terminal_text(run.request.original_address);
        reveal_strlit(" replied to ICMP Echo.");
        reveal_strlit("replied to ICMP Echo");
        word_laws::lemma_mentions(" replied to ICMP Echo."@, "replied to ICMP Echo"@, 1);
        content_laws::lemma_mentioned_within(
            front,
            " replied to ICMP Echo."@,
            none,
            "replied to ICMP Echo"@,
        );
        assert(front + " replied to ICMP Echo."@ + none =~= shown);
    }
}

/// What is said of targets that no connection succeeded to: that the attempts timed out and the
/// addresses replied to ICMP exactly where all did, that they were refused where all were, and
/// otherwise just that no connection succeeded.
pub proof fn failed_connections_are_told_apart(
    targets: Seq<TargetDiagnosticView>,
    port: NonZeroU16,
)
    requires
        targets.len() > 0,
    ensures
        ({
            let lines = completed::unconnected_lines(targets, port);
            let icmp_only = report_laws::all_concluded(
                targets,
                Conclusion::TcpTimedOutButTargetIcmpResponded,
            );
            let refused = report_laws::all_concluded(targets, Conclusion::TcpConnectionRefused);
            &&& lines.len() == (if icmp_only {
                2int
            } else {
                1int
            })
            &&& icmp_only ==> text::mentions(lines[0], "timed out"@) && text::mentions(
                lines[1],
                "replied to ICMP Echo"@,
            )
            &&& refused ==> text::mentions(lines[0], "refused"@)
            &&& !icmp_only && !refused && targets.len() == 1 ==> text::mentions(
                lines[0],
                "did not succeed"@,
            )
            &&& !icmp_only && !refused && targets.len() > 1 ==> text::mentions(
                lines[0],
                "No TCP connection"@,
            )
        }),
{
    let none = Seq::<char>::empty();
    let lines = completed::unconnected_lines(targets, port);
    let target = completed::target_text(targets[0].target, Some(port));
    let number = completed::port_text(port);
    let count = text::decimal(targets.len());
    assert(targets[0].conclusion == targets[0].conclusion);
    if report_laws::all_concluded(targets, Conclusion::TcpTimedOutButTargetIcmpResponded) {
        if targets.len() == 1 {
            reveal_strlit(" timed out.");
            reveal_strlit("timed out");
            word_laws::lemma_mentions(" timed out."@, "timed out"@, 1);
            reveal_strlit("That IP address replied to ICMP Echo.");
            reveal_strlit("replied to ICMP Echo");
            word_laws::lemma_mentions(
                "That IP address replied to ICMP Echo."@,
                "replied to ICMP Echo"@,
                16,
            );
            let front = "Two TCP connection attempts to "@ + target;
            content_laws::lemma_mentioned_within(front, " timed out."@, none, "timed out"@);
            assert(front + " timed out."@ + none =~= lines[0]);
        } else {
            reveal_strlit(" timed out twice for all ");
            reveal_strlit("timed out");
            word_laws::lemma_mentions(" timed out twice for all "@, "timed out"@, 1);
            reveal_strlit("Those IP addresses replied to ICMP Echo.");
            reveal_strlit("replied to ICMP Echo");
            word_laws::lemma_mentions(
                "Those IP addresses replied to ICMP Echo."@,
                "replied to ICMP Echo"@,
                19,
            );
            let front = "TCP connection attempts to port "@ + number;
            let middle = " timed out twice for all "@;
            let back = count + " IP addresses."@;
            content_laws::lemma_mentioned_within(front, middle, back, "timed out"@);
            assert(front + middle + back =~= lines[0]);
        }
    } else if report_laws::all_concluded(targets, Conclusion::TcpConnectionRefused) {
        if targets.len() == 1 {
            reveal_strlit(" was explicitly refused.");
            reveal_strlit("refused");
            word_laws::lemma_mentions(" was explicitly refused."@, "refused"@, 16);
            let front = "The TCP connection to "@ + target;
            content_laws::lemma_mentioned_within(
                front,
                " was explicitly refused."@,
                none,
                "refused"@,
            );
            assert(front + " was explicitly refused."@ + none =~= lines[0]);
        } else {
            reveal_strlit(" IP addresses explicitly refused the TCP connection to port ");
            reveal_strlit("refused");
            word_laws::lemma_mentions(
                " IP addresses explicitly refused the TCP connection to port "@,
                "refused"@,
                25,
            );
            let middle = " IP addresses explicitly refused the TCP connection to port "@;
            let back = number + "."@;
            content_laws::lemma_mentioned_within("All "@ + count, middle, back, "refused"@);
            assert("All "@ + count + middle + back =~= lines[0]);
        }
    } else if targets.len() == 1 {
        reveal_strlit(" did not succeed.");
        reveal_strlit("did not succeed");
        word_laws::lemma_mentions(" did not succeed."@, "did not succeed"@, 1);
        let front = "The TCP connection to "@ + target;
        content_laws::lemma_mentioned_within(
            front,
            " did not succeed."@,
            none,
            "did not succeed"@,
        );
        assert(front + " did not succeed."@ + none =~= lines[0]);
    } else {
        reveal_strlit("No TCP connection to port ");
        reveal_strlit("No TCP connection");
        word_laws::lemma_mentions("No TCP connection to port "@, "No TCP connection"@, 0);
        let front = "No TCP connection to port "@;
        let back = number + " succeeded for the "@ + count + " IP addresses checked."@;
        content_laws::lemma_mentioned_within(none, front, back, "No TCP connection"@);
        assert(none + front + back =~= lines[0]);
    }
}

/// Any other verdict says that targets responded only in the end, that they differ, that
/// connections did not succeed, or that no reply came, as the results of the run do.
pub proof fn other_verdicts_say_what_happened(run: CompletedDiagnosticView)
    requires
        run.targets.len() > 0,
    ensures
        ({
            let lines = completed::verdict_lines(run);
            match run.aggregate_outcome {
                AggregateOutcome::SatisfiedWithAnomaly => text::mentions(
                    lines[0],
                    "eventually responded"@,
                ) && text::mentions(lines[0], "timed out"@),
                AggregateOutcome::Mixed => text::mentions(lines[0], "different results"@),
                AggregateOutcome::NoneCleanlySatisfied => match run.request.port {
                    Some(port) => lines == completed::unconnected_lines(run.targets, port),
                    None => text::mentions(lines[0], "ICMP Echo Reply"@),
                },
                _ => true,
            }
        }),
{
    let none = Seq::<char>::empty();
    let lines = completed::verdict_lines(run);
    let count = text::decimal(run.targets.len());
    match run.aggregate_outcome {
        AggregateOutcome::SatisfiedWithAnomaly => if run.targets.len() == 1 {
            reveal_strlit("The destination eventually responded, but its first attempt timed out and a retry was needed.");
            reveal_strlit("eventually responded");
            word_laws::lemma_mentions(
                "The destination eventually responded, but its first attempt timed out and a retry was needed."@,
                "eventually responded"@,
                16,
            );
            reveal_strlit("The destination eventually responded, but its first attempt timed out and a retry was needed.");
            reveal_strlit("timed out");
            word_laws::lemma_mentions(
                "The destination eventually responded, but its first attempt timed out and a retry was needed."@,
                "timed out"@,
                60,
            );
        } else {
            reveal_strlit(" IP addresses eventually responded, but at least one first timed out and required a retry.");
            reveal_strlit("eventually responded");
            word_laws::lemma_mentions(
                " IP addresses eventually responded, but at least one first timed out and required a retry."@,
                "eventually responded"@,
                14,
            );
            reveal_strlit(" IP addresses eventually responded, but at least one first timed out and required a retry.");
            reveal_strlit("timed out");
            word_laws::lemma_mentions(
                " IP addresses eventually responded, but at least one first timed out and required a retry."@,
                "timed out"@,
                59,
            );
            let told =
                " IP addresses eventually responded, but at least one first timed out and required a retry."@;
            content_laws::lemma_mentioned_within(
                "All "@ + count,
                told,
                none,
                "eventually responded"@,
            );
            content_laws::lemma_mentioned_within("All "@ + count, told, none, "timed out"@);
            assert("All "@ + count + told + none =~= lines[0]);
        },
        AggregateOutcome::Mixed => {
            reveal_strlit("The same check produced different results across ");
            reveal_strlit("different results");
            word_laws::lemma_mentions(
                "The same check produced different results across "@,
                "different results"@,
                24,
            );
            let front = "The same check produced different results across "@;
            let clean = completed::outcome_count(
                run.targets,
                PrimaryOutcome::Satisfied,
            );
            let back = count + " IP addresses: "@ + text::decimal(clean) + " passed cleanly and "@
                + text::decimal(completed::eventual_count(run.targets))
                + " responded successfully in total."@;
            content_laws::lemma_mentioned_within(none, front, back, "different results"@);
            assert(none + front + back =~= lines[0]);
        },
        AggregateOutcome::NoneCleanlySatisfied => if run.request.port is None {
            if run.targets.len() == 1 {
                reveal_strlit("The IP address did not produce a confirmed ICMP Echo Reply.");
                reveal_strlit("ICMP Echo Reply");
                word_laws::lemma_mentions(
                    "The IP address did not produce a confirmed ICMP Echo Reply."@,
                    "ICMP Echo Reply"@,
                    43,
                );
            } else {
                reveal_strlit(" IP addresses produced a confirmed ICMP Echo Reply.");
                reveal_strlit("ICMP Echo Reply");
                word_laws::lemma_mentions(
                    " IP addresses produced a confirmed ICMP Echo Reply."@,
                    "ICMP Echo Reply"@,
                    35,
                );
                let told = " IP addresses produced a confirmed ICMP Echo Reply."@;
                content_laws::lemma_mentioned_within(
                    "None of the "@ + count,
                    told,
                    none,
                    "ICMP Echo Reply"@,
                );
                assert("None of the "@ + count + told + none =~= lines[0]);
            }
        },
        _ => {},
    }
}

/// What is said of a name that led to no address tells a failure without a reliable answer from an
/// answer without an address, and names the name.
pub proof fn unresolved_names_are_told_apart(
    outcome: HostnameResolutionOutcomeView,
    address: Seq<char>,
)
    ensures
        ({
            let shown = completed::unresolved_line(outcome, address);
            match outcome {
                HostnameResolutionOutcomeView::NonDefinitiveFailure { .. } => text::mentions(
                    shown,
                    "could not produce a reliable IP address"@,
                ) && text::mentions(shown, address),
                HostnameResolutionOutcomeView::SucceededWithoutUsableAddress => text::mentions(
                    shown,
                    "completed but returned no usable"@,
                ) && text::mentions(shown, address),
                HostnameResolutionOutcomeView::DefinitiveNegative { .. } => text::mentions(
                    shown,
                    "resolution returned no usable"@,
                ) && text::mentions(shown, address),
                HostnameResolutionOutcomeView::NegativeWithoutUsableAddress { .. } => {
                    text::mentions(shown, "resolution returned no usable"@) && text::mentions(
                        shown,
                        address,
                    )
                },
                _ => true,
            }
        }),
{
    let none = Seq::<char>::empty();
    let back = address + "."@;
    let shown = completed::unresolved_line(outcome, address);
    word_laws::lemma_mentions(address, address, 0);
    match outcome {
        HostnameResolutionOutcomeView::NonDefinitiveFailure { .. } => {
            reveal_strlit("System name resolution could not produce a reliable IP address for ");
            reveal_strlit("could not produce a reliable IP address");
            word_laws::lemma_mentions(
                "System name resolution could not produce a reliable IP address for "@,
                "could not produce a reliable IP address"@,
                23,
            );
            let front = "System name resolution could not produce a reliable IP address for "@;
            content_laws::lemma_mentioned_within(
                none,
                front,
                back,
                "could not produce a reliable IP address"@,
            );
            content_laws::lemma_mentioned_within(front, address, "."@, address);
            assert(none + front + back =~= shown);
        },
        HostnameResolutionOutcomeView::SucceededWithoutUsableAddress => {
            reveal_strlit("System name resolution completed but returned no usable IPv4 or IPv6 address for ");
            reveal_strlit("completed but returned no usable");
            word_laws::lemma_mentions(
                "System name resolution completed but returned no usable IPv4 or IPv6 address for "@,
                "completed but returned no usable"@,
                23,
            );
            let front = "System name resolution completed but returned no usable IPv4 or IPv6 address for "@;
            content_laws::lemma_mentioned_within(
                none,
                front,
                back,
                "completed but returned no usable"@,
            );
            content_laws::lemma_mentioned_within(front, address, "."@, address);
            assert(none + front + back =~= shown);
        },
        HostnameResolutionOutcomeView::DefinitiveNegative { .. } => {
            reveal_strlit("System name resolution returned no usable IPv4 or IPv6 address for ");
            reveal_strlit("resolution returned no usable");
            word_laws::lemma_mentions(
                "System name resolution returned no usable IPv4 or IPv6 address for "@,
                "resolution returned no usable"@,
                12,
            );
            let front = "System name resolution returned no usable IPv4 or IPv6 address for "@;
            content_laws::lemma_mentioned_within(
                none,
                front,
                back,
                "resolution returned no usable"@,
            );
            content_laws::lemma_mentioned_within(front, address, "."@, address);
            assert(none + front + back =~= shown);
        },
        HostnameResolutionOutcomeView::NegativeWithoutUsableAddress { .. } => {
            reveal_strlit("System name resolution returned no usable IPv4 or IPv6 address for ");
            reveal_strlit("resolution returned no usable");
            word_laws::lemma_mentions(
                "System name resolution returned no usable IPv4 or IPv6 address for "@,
                "resolution returned no usable"@,
                12,
            );
            let front = "System name resolution returned no usable IPv4 or IPv6 address for "@;
            content_laws::lemma_mentioned_within(
                none,
                front,
                back,
                "resolution returned no usable"@,
            );
            content_laws::lemma_mentioned_within(front, address, "."@, address);
            assert(none + front + back =~= shown);
        },
        _ => {},
    }
}

/// What a verdict means is said with its limits: a connection proves no more than itself, a reply
/// no more than an address, a refusal and a silence no cause, and a name without an address that
/// nothing was checked.
pub proof fn meanings_fit_the_results(run: CompletedDiagnosticView)
    requires
        run.aggregate_outcome != AggregateOutcome::NoFormalTargets ==> run.targets.len() > 0,
    ensures
        ({
            let lines = completed::meaning_lines(run);
            let icmp_only = report_laws::all_concluded(
                run.targets,
                Conclusion::TcpTimedOutButTargetIcmpResponded,
            );
            let refused = report_laws::all_concluded(run.targets, Conclusion::TcpConnectionRefused);
            match run.aggregate_outcome {
                AggregateOutcome::AllSatisfied => if run.request.port is Some {
                    text::mentions(lines[0], "TCP handshake completed"@) && text::mentions(
                        lines[1],
                        "does not prove"@,
                    )
                } else {
                    text::mentions(lines[0], "ICMP Echo Reply"@) && text::mentions(
                        lines[1],
                        "does not test a TCP port"@,
                    )
                },
                AggregateOutcome::SatisfiedWithAnomaly => text::mentions(
                    lines[0],
                    "eventually observed"@,
                ) && text::mentions(lines[1], "does not erase the first timeout"@),
                AggregateOutcome::Mixed => text::mentions(lines[0], "respond differently"@)
                    && text::mentions(lines[1], "does not erase a failure"@),
                AggregateOutcome::NoneCleanlySatisfied => if icmp_only {
                    text::mentions(lines[0], "no TCP connection"@) && text::mentions(
                        lines[1],
                        "does not prove that the port is closed"@,
                    )
                } else if refused {
                    text::mentions(lines[0], "explicit refusal"@) && text::mentions(
                        lines[1],
                        "does not by itself prove"@,
                    )
                } else if run.request.port is Some {
                    text::mentions(lines[0], "did not succeed"@) && text::mentions(
                        lines[1],
                        "does not guess"@,
                    )
                } else {
                    text::mentions(lines[0], "did not obtain a confirmed ICMP Echo Reply"@)
                },
                AggregateOutcome::NoFormalTargets => {
                    &&& text::mentions(lines[0], "did not resolve"@)
                    &&& text::mentions(lines[1], "No ICMP or TCP check was started"@)
                    &&& lines.len() == 3 <==> name_resolution::attempts_of(
                        run.resolver_diagnostics,
                    ).len() > 0
                },
            }
        }),
{
    let none = Seq::<char>::empty();
    let lines = completed::meaning_lines(run);
    if run.targets.len() > 0 {
        assert(run.targets[0].conclusion == run.targets[0].conclusion);
    }
    match run.aggregate_outcome {
        AggregateOutcome::AllSatisfied => if run.request.port is Some {
            reveal_strlit("The TCP handshake completed, confirming TCP connectivity to the requested port at the time of the check.");
            reveal_strlit("TCP handshake completed");
            word_laws::lemma_mentions(
                "The TCP handshake completed, confirming TCP connectivity to the requested port at the time of the check."@,
                "TCP handshake completed"@,
                4,
            );
            reveal_strlit("Reach sent no application data, so this does not prove that HTTP, HTTPS, SSH, or another application protocol is working.");
            reveal_strlit("does not prove");
            word_laws::lemma_mentions(
                "Reach sent no application data, so this does not prove that HTTP, HTTPS, SSH, or another application protocol is working."@,
                "does not prove"@,
                40,
            );
        } else {
            reveal_strlit("The destination returned an ICMP Echo Reply, confirming an address-level response at the time of the check.");
            reveal_strlit("ICMP Echo Reply");
            word_laws::lemma_mentions(
                "The destination returned an ICMP Echo Reply, confirming an address-level response at the time of the check."@,
                "ICMP Echo Reply"@,
                28,
            );
            reveal_strlit("This does not test a TCP port, website, or application service.");
            reveal_strlit("does not test a TCP port");
            word_laws::lemma_mentions(
                "This does not test a TCP port, website, or application service."@,
                "does not test a TCP port"@,
                5,
            );
        },
        AggregateOutcome::SatisfiedWithAnomaly => {
            reveal_strlit("Connectivity was eventually observed, but the earlier timeout remains evidence of an intermittent result.");
            reveal_strlit("eventually observed");
            word_laws::lemma_mentions(
                "Connectivity was eventually observed, but the earlier timeout remains evidence of an intermittent result."@,
                "eventually observed"@,
                17,
            );
            reveal_strlit("The later success does not erase the first timeout, so Reach does not report a clean pass.");
            reveal_strlit("does not erase the first timeout");
            word_laws::lemma_mentions(
                "The later success does not erase the first timeout, so Reach does not report a clean pass."@,
                "does not erase the first timeout"@,
                18,
            );
        },
        AggregateOutcome::Mixed => {
            reveal_strlit("A hostname can lead to several IP addresses, and those destinations can respond differently.");
            reveal_strlit("respond differently");
            word_laws::lemma_mentions(
                "A hostname can lead to several IP addresses, and those destinations can respond differently."@,
                "respond differently"@,
                72,
            );
            reveal_strlit("A successful address does not erase a failure or uncertainty on another address.");
            reveal_strlit("does not erase a failure");
            word_laws::lemma_mentions(
                "A successful address does not erase a failure or uncertainty on another address."@,
                "does not erase a failure"@,
                21,
            );
        },
        AggregateOutcome::NoneCleanlySatisfied => {
            lemma_failure_meaning(run);
        },
        AggregateOutcome::NoFormalTargets => {
            reveal_strlit("The hostname did not resolve to an IP address.");
            reveal_strlit("did not resolve");
            word_laws::lemma_mentions(
                "The hostname did not resolve to an IP address."@,
                "did not resolve"@,
                13,
            );
            reveal_strlit("No ICMP or TCP check was started.");
            reveal_strlit("No ICMP or TCP check was started");
            word_laws::lemma_mentions(
                "No ICMP or TCP check was started."@,
                "No ICMP or TCP check was started"@,
                0,
            );
        },
    }
}

proof fn lemma_failure_meaning(run: CompletedDiagnosticView)
    requires
        run.aggregate_outcome == AggregateOutcome::NoneCleanlySatisfied,
        run.targets.len() > 0,
    ensures
        ({
            let lines = completed::meaning_lines(run);
            if report_laws::all_concluded(
                run.targets,
                Conclusion::TcpTimedOutButTargetIcmpResponded,
            ) {
                text::mentions(lines[0], "no TCP connection"@) && text::mentions(
                    lines[1],
                    "does not prove that the port is closed"@,
                )
            } else if report_laws::all_concluded(run.targets, Conclusion::TcpConnectionRefused) {
                text::mentions(lines[0], "explicit refusal"@) && text::mentions(
                    lines[1],
                    "does not by itself prove"@,
                )
            } else if run.request.port is Some {
                text::mentions(lines[0], "did not succeed"@) && text::mentions(
                    lines[1],
                    "does not guess"@,
                )
            } else {
                text::mentions(lines[0], "did not obtain a confirmed ICMP Echo Reply"@)
            }
        }),
{
    let none = Seq::<char>::empty();
    let lines = completed::meaning_lines(run);
    assert(run.targets[0].conclusion == run.targets[0].conclusion);
    if report_laws::all_concluded(run.targets, Conclusion::TcpTimedOutButTargetIcmpResponded) {
        reveal_strlit(", but no TCP connection to the requested port completed.");
        reveal_strlit("no TCP connection");
        word_laws::lemma_mentions(
            ", but no TCP connection to the requested port completed."@,
            "no TCP connection"@,
            6,
        );
        reveal_strlit("This does not prove that the port is closed. Reach cannot determine from these observations alone whether filtering, the network path, or the destination service caused the missing TCP response.");
        reveal_strlit("does not prove that the port is closed");
        word_laws::lemma_mentions(
            "This does not prove that the port is closed. Reach cannot determine from these observations alone whether filtering, the network path, or the destination service caused the missing TCP response."@,
            "does not prove that the port is closed"@,
            5,
        );
        let front = if run.targets.len() == 1 {
            "The destination IP responded to ICMP"@
        } else {
            "The destination IP addresses responded to ICMP"@
        };
        let told = ", but no TCP connection to the requested port completed."@;
        content_laws::lemma_mentioned_within(front, told, none, "no TCP connection"@);
        assert(front + told + none =~= lines[0]);
    } else if report_laws::all_concluded(run.targets, Conclusion::TcpConnectionRefused) {
        reveal_strlit("An explicit refusal proves that the TCP attempt received a response, but the requested connection was not established.");
        reveal_strlit("explicit refusal");
        word_laws::lemma_mentions(
            "An explicit refusal proves that the TCP attempt received a response, but the requested connection was not established."@,
            "explicit refusal"@,
            3,
        );
        reveal_strlit("The refusal may come from the destination or an intermediate device; it does not by itself prove that no application is listening.");
        reveal_strlit("does not by itself prove");
        word_laws::lemma_mentions(
            "The refusal may come from the destination or an intermediate device; it does not by itself prove that no application is listening."@,
            "does not by itself prove"@,
            72,
        );
    } else if run.request.port is Some {
        reveal_strlit("The requested TCP connection did not succeed; the destination results and evidence below show the boundary Reach actually observed.");
        reveal_strlit("did not succeed");
        word_laws::lemma_mentions(
            "The requested TCP connection did not succeed; the destination results and evidence below show the boundary Reach actually observed."@,
            "did not succeed"@,
            29,
        );
        reveal_strlit("Reach does not guess an unobserved root cause from a timeout or an operating-system error name.");
        reveal_strlit("does not guess");
        word_laws::lemma_mentions(
            "Reach does not guess an unobserved root cause from a timeout or an operating-system error name."@,
            "does not guess"@,
            6,
        );
    } else {
        reveal_strlit("Reach did not obtain a confirmed ICMP Echo Reply. This alone does not prove that the destination is down because ICMP may be blocked or limited.");
        reveal_strlit("did not obtain a confirmed ICMP Echo Reply");
        word_laws::lemma_mentions(
            "Reach did not obtain a confirmed ICMP Echo Reply. This alone does not prove that the destination is down because ICMP may be blocked or limited."@,
            "did not obtain a confirmed ICMP Echo Reply"@,
            6,
        );
    }
}

/// Advice is given exactly where a run was no clean success, and fits what happened: to repeat a
/// check that needed a retry, to report a difference, to look at the port or at ICMP, or to look
/// at the name.
pub proof fn advice_fits_the_results(run: CompletedDiagnosticView)
    ensures
        ({
            let lines = completed::action_lines(run);
            &&& lines.len() == 0 <==> run.aggregate_outcome == AggregateOutcome::AllSatisfied
            &&& match run.aggregate_outcome {
                AggregateOutcome::AllSatisfied => true,
                AggregateOutcome::SatisfiedWithAnomaly => text::mentions(
                    lines[0],
                    "Run the same check again"@,
                ),
                AggregateOutcome::Mixed => text::mentions(lines[0], "per-address difference"@),
                AggregateOutcome::NoneCleanlySatisfied => match run.request.port {
                    Some(port) => text::mentions(lines[0], "Verify that TCP port"@)
                        && text::mentions(lines[0], text::decimal(port.number() as nat)),
                    None => text::mentions(lines[0], "answer ping"@),
                },
                AggregateOutcome::NoFormalTargets => text::mentions(
                    lines[0],
                    "hostname is correct"@,
                ) && text::mentions(lines[1], "DNS configuration"@),
            }
        }),
{
    let none = Seq::<char>::empty();
    let lines = completed::action_lines(run);
    match run.aggregate_outcome {
        AggregateOutcome::AllSatisfied => {},
        AggregateOutcome::SatisfiedWithAnomaly => {
            reveal_strlit("Run the same check again and note whether the timeout repeats.");
            reveal_strlit("Run the same check again");
            word_laws::lemma_mentions(
                "Run the same check again and note whether the timeout repeats."@,
                "Run the same check again"@,
                0,
            );
        },
        AggregateOutcome::Mixed => {
            reveal_strlit("Send this result to the service owner or network team; the per-address difference is important.");
            reveal_strlit("per-address difference");
            word_laws::lemma_mentions(
                "Send this result to the service owner or network team; the per-address difference is important."@,
                "per-address difference"@,
                59,
            );
        },
        AggregateOutcome::NoneCleanlySatisfied => if let Some(port) = run.request.port {
            reveal_strlit("Verify that TCP port ");
            reveal_strlit("Verify that TCP port");
            word_laws::lemma_mentions("Verify that TCP port "@, "Verify that TCP port"@, 0);
            let number = completed::port_text(port);
            let front = "Verify that TCP port "@;
            let back =
                " is correct and that the service is expected to accept connections on it."@;
            word_laws::lemma_mentions(number, number, 0);
            content_laws::lemma_mentioned_within(front, number, back, number);
            content_laws::lemma_mentioned_within(
                none,
                front,
                number + back,
                "Verify that TCP port"@,
            );
            assert(none + front + (number + back) =~= lines[0]);
            assert(front + number + back =~= lines[0]);
        } else {
            reveal_strlit("If the destination is expected to answer ping, run the check again to rule out short packet loss.");
            reveal_strlit("answer ping");
            word_laws::lemma_mentions(
                "If the destination is expected to answer ping, run the check again to rule out short packet loss."@,
                "answer ping"@,
                34,
            );
        },
        AggregateOutcome::NoFormalTargets => {
            reveal_strlit("Check that the hostname is correct.");
            reveal_strlit("hostname is correct");
            word_laws::lemma_mentions(
                "Check that the hostname is correct."@,
                "hostname is correct"@,
                15,
            );
            reveal_strlit("Check this computer's name-resolution/DNS configuration.");
            reveal_strlit("DNS configuration");
            word_laws::lemma_mentions(
                "Check this computer's name-resolution/DNS configuration."@,
                "DNS configuration"@,
                38,
            );
        },
    }
}

} // verus!
