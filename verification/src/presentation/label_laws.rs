//! The labels of a report: how targets, times, answers and exit codes are written.

use vstd::prelude::*;

use crate::lists;
use crate::model::{
    AttemptKind, AttemptOutcomeView, AttemptView, DnsExchangeObservationView, DnsExchangePurpose,
    DnsQueryType, DnsResponseCode, NameResolutionSource, NameResolutionStepView, TargetIpView,
};
use crate::net::IpAddr;
use crate::number::NonZeroU16;
use crate::presentation::completed;
use crate::presentation::content_laws;
use crate::presentation::error;
use crate::presentation::name_resolution;
use crate::presentation::word_laws;
use crate::presentation::{self, Theme, Tint};
use crate::result::{
    CompletedDiagnosticView, DiagnosticResultView, EvidenceFactView, EvidenceView,
};
use crate::text;
use crate::time::Duration;

verus! {

/// A target is written with its address, and with the port where one is checked; the address of an
/// IPv6 target stands in brackets before a port, and only there. A target without a scope and a
/// port is written as its address alone.
pub proof fn targets_are_written_with_address_and_port(
    target: TargetIpView,
    port: Option<NonZeroU16>,
)
    ensures
        ({
            let shown = completed::target_text(target, port);
            &&& text::mentions(shown, target.address.shown())
            &&& port matches Some(port) ==> text::mentions(
                shown,
                text::decimal(port.number() as nat),
            )
            &&& port is Some && target.address is V6 ==> shown[0] == '[' && text::mentions(
                shown,
                "]:"@,
            )
            &&& port is None && target.scope is None ==> shown == target.address.shown()
            &&& target.scope matches Some(scope) ==> text::mentions(
                shown,
                "%"@ + text::decimal(scope.index as nat),
            )
        }),
{
    let none = Seq::<char>::empty();
    let own = target.address.shown();
    let shown = completed::target_text(target, port);
    let zone = match target.scope {
        Some(scope) => "%"@ + text::decimal(scope.index as nat),
        None => none,
    };
    let address = own + zone;
    match target.scope {
        Some(scope) => {
            assert(own + "%"@ + text::decimal(scope.index as nat) =~= address);
        },
        None => {
            assert(address =~= own);
        },
    }
    word_laws::lemma_mentions(own, own, 0);
    word_laws::lemma_mentions(zone, zone, 0);
    reveal_strlit("[");
    reveal_strlit("]:");
    match port {
        None => {
            content_laws::lemma_mentioned_within(none, own, zone, own);
            content_laws::lemma_mentioned_within(own, zone, none, zone);
            assert(none + own + zone =~= shown);
            assert(own + zone + none =~= shown);
        },
        Some(port) => {
            let number = completed::port_text(port);
            word_laws::lemma_mentions(number, number, 0);
            let (front, middle) = match target.address {
                IpAddr::V6(_) => ("["@, "]:"@),
                IpAddr::V4(_) => (none, ":"@),
            };
            assert(front + own + (zone + middle + number) =~= shown);
            assert(front + own + zone + (middle + number) =~= shown);
            assert(front + own + zone + middle + number + none =~= shown);
            assert(front + own + zone + middle + number =~= shown);
            content_laws::lemma_mentioned_within(front, own, zone + middle + number, own);
            content_laws::lemma_mentioned_within(front + own, zone, middle + number, zone);
            content_laws::lemma_mentioned_within(
                front + own + zone + middle,
                number,
                none,
                number,
            );
            word_laws::lemma_mentions(middle, middle, 0);
            content_laws::lemma_mentioned_within(front + own + zone, middle, number, middle);
        },
    }
}

/// A time from one second on is written in seconds, one from a millisecond on in whole
/// milliseconds, and a shorter one as less than a millisecond.
pub proof fn times_are_written_in_their_unit(value: Duration)
    ensures
        ({
            let shown = presentation::duration_text(value);
            &&& value.span() < 1_000_000 ==> shown == "<1 ms"@
            &&& 1_000_000 <= value.span() < 1_000_000_000 ==> shown == text::decimal(
                value.span() / 1_000_000,
            ) + " ms"@
            &&& value.span() >= 1_000_000_000 ==> shown.len() >= 2 && shown.last() == 's' && shown[
                shown.len() - 2] == ' '
            &&& value.span() >= 1_000_000_000 && value.span() % 1_000_000_000 == 0 ==> shown
                == text::decimal((value.span() / 1_000_000_000) as u64 as nat) + " s"@
        }),
{
    reveal_strlit(" s");
}

/// Whether every address of a list stands in a text.
pub open spec fn lists_all(shown: Seq<char>, addresses: Seq<IpAddr>) -> bool {
    forall|i: int|
        0 <= i < addresses.len() ==> text::mentions(shown, (#[trigger] addresses[i]).shown())
}

/// Every piece that is joined is mentioned.
proof fn lemma_pieces_are_mentioned(pieces: Seq<Seq<char>>, separator: Seq<char>, place: int)
    requires
        0 <= place < pieces.len(),
    ensures
        text::mentions(text::joined(pieces, separator), pieces[place]),
    decreases pieces.len(),
{
    let none = Seq::<char>::empty();
    let piece = pieces[place];
    word_laws::lemma_mentions(piece, piece, 0);
    if pieces.len() > 1 {
        let front = text::joined(pieces.drop_last(), separator);
        let whole = text::joined(pieces, separator);
        if place == pieces.len() - 1 {
            content_laws::lemma_mentioned_within(front + separator, piece, none, piece);
            assert(front + separator + piece + none =~= whole);
        } else {
            lemma_pieces_are_mentioned(pieces.drop_last(), separator, place);
            let back = separator + pieces.last();
            content_laws::lemma_mentioned_within(none, front, back, piece);
            assert(none + front + back =~= whole);
        }
    }
}

/// A DNS answer is told by the addresses that it holds, all of them. One without any is told by
/// its code, or as cut off, or as an answer without an address of the type that was asked for.
pub proof fn answers_are_told_by_their_addresses(
    code: DnsResponseCode,
    addresses: Seq<IpAddr>,
    aliases: Seq<Seq<char>>,
    truncated: bool,
    query_type: DnsQueryType,
)
    ensures
        ({
            let shown = name_resolution::response_text(
                code,
                addresses,
                aliases,
                truncated,
                query_type,
            );
            &&& lists_all(shown, addresses)
            &&& addresses.len() == 0 ==> match code {
                DnsResponseCode::NxDomain => text::mentions(shown, "NXDOMAIN"@),
                DnsResponseCode::NoError => if truncated {
                    shown == "Response truncated"@
                } else if query_type == DnsQueryType::A {
                    shown == "No A address returned"@
                } else {
                    shown == "No AAAA address returned"@
                },
                DnsResponseCode::ServFail => text::mentions(shown, "SERVFAIL"@),
                DnsResponseCode::Refused => text::mentions(shown, "REFUSED"@),
                DnsResponseCode::FormErr => text::mentions(shown, "FORMERR"@),
                DnsResponseCode::NotImp => text::mentions(shown, "NOTIMP"@),
                DnsResponseCode::Other(number) => truncated || text::mentions(
                    shown,
                    text::decimal(number as nat),
                ),
            }
        }),
{
    let none = Seq::<char>::empty();
    let shown = name_resolution::response_text(code, addresses, aliases, truncated, query_type);
    let pieces = name_resolution::address_texts(addresses);
    let listed = text::joined(pieces, ", "@);
    assert forall|i: int| 0 <= i < addresses.len() implies text::mentions(
        shown,
        (#[trigger] addresses[i]).shown(),
    ) by {
        lemma_pieces_are_mentioned(pieces, ", "@, i);
        if aliases.len() > 0 {
            let told = text::joined(name_resolution::terminal_texts(aliases), ", "@);
            let back = " (alias: "@ + told + ")"@;
            content_laws::lemma_mentioned_within(none, listed, back, pieces[i]);
            assert(none + listed + back =~= shown);
        }
    }
    if addresses.len() == 0 {
        let name = name_resolution::response_code_text(code);
        word_laws::lemma_mentions(name, name, 0);
        content_laws::lemma_mentioned_within(none, name, "; response truncated"@, name);
        assert(none + name + "; response truncated"@ =~= name + "; response truncated"@);
        if let DnsResponseCode::Other(number) = code {
            let digits = text::decimal(number as nat);
            word_laws::lemma_mentions(digits, digits, 0);
            content_laws::lemma_mentioned_within("DNS response code "@, digits, none, digits);
            assert("DNS response code "@ + digits + none =~= "DNS response code "@ + digits);
        }
    }
}

/// The end of an attempt.
pub open spec fn has_no_result(attempt: AttemptView) -> bool {
    match attempt.outcome {
        AttemptOutcomeView::Tcp(result) => result is Timeout,
        AttemptOutcomeView::Icmp(result) => result is Timeout,
        AttemptOutcomeView::Dns(result) => result is Timeout,
    }
}

/// An attempt is told with what was tried. One without a result is told as such, with the time
/// that it had; any other with what came of it.
pub proof fn attempts_are_told_with_their_result(attempt: AttemptView, ordinal: Option<nat>)
    ensures
        ({
            let shown = completed::attempt_line(attempt, ordinal);
            let budget = attempt.timing.deadline_at.less(attempt.timing.started_at);
            &&& text::mentions(shown, completed::kind_text(attempt.kind))
            &&& ordinal matches Some(number) ==> text::mentions(
                shown,
                "#"@ + text::decimal(number),
            )
            &&& has_no_result(attempt) ==> text::mentions(shown, "No result before"@)
                && text::mentions(shown, presentation::duration_text(budget))
            &&& !has_no_result(attempt) ==> text::mentions(shown, completed::outcome_text(attempt))
        }),
{
    let none = Seq::<char>::empty();
    let shown = completed::attempt_line(attempt, ordinal);
    let kind = completed::kind_text(attempt.kind);
    let check = completed::display_text(attempt.kind, ordinal);
    let rest = shown.skip(check.len() as int);
    assert(none + check + rest =~= shown);
    word_laws::lemma_mentions(kind, kind, 0);
    match ordinal {
        Some(number) => {
            lemma_display(attempt, number);
        },
        None => {},
    }
    content_laws::lemma_mentioned_within(none, check, rest, kind);
    if let Some(number) = ordinal {
        content_laws::lemma_mentioned_within(none, check, rest, "#"@ + text::decimal(number));
    }
    if has_no_result(attempt) {
        let budget = presentation::duration_text(
            attempt.timing.deadline_at.less(attempt.timing.started_at),
        );
        let told = ": No result before the "@;
        reveal_strlit(": No result before the ");
        reveal_strlit("No result before");
        word_laws::lemma_mentions(told, "No result before"@, 2);
        word_laws::lemma_mentions(budget, budget, 0);
        content_laws::lemma_mentioned_within(
            check,
            told,
            budget + " deadline."@,
            "No result before"@,
        );
        assert(check + told + (budget + " deadline."@) =~= shown);
        content_laws::lemma_mentioned_within(check + told, budget, " deadline."@, budget);
        assert(check + told + budget + " deadline."@ =~= shown);
    } else {
        let told = completed::outcome_text(attempt);
        let front = check + ": "@;
        let back = shown.skip((front + told).len() as int);
        word_laws::lemma_mentions(told, told, 0);
        content_laws::lemma_mentioned_within(front, told, back, told);
        assert(front + told + back =~= shown);
    }
}

proof fn lemma_display(attempt: AttemptView, number: nat)
    ensures
        text::mentions(
            completed::display_text(attempt.kind, Some(number)),
            completed::kind_text(attempt.kind),
        ),
        text::mentions(
            completed::display_text(attempt.kind, Some(number)),
            "#"@ + text::decimal(number),
        ),
{
    let kind = completed::kind_text(attempt.kind);
    reveal_strlit(" #");
    reveal_strlit(", attempt #");
    lemma_marked(kind, " #"@, text::decimal(number));
    lemma_marked(kind, ", attempt #"@, text::decimal(number));
}

/// A text with a mark and a number behind it mentions both.
proof fn lemma_marked(shown: Seq<char>, mark: Seq<char>, number: Seq<char>)
    requires
        mark.len() > 0,
        mark.last() == '#',
    ensures
        text::mentions(shown + mark + number, shown),
        text::mentions(shown + mark + number, "#"@ + number),
{
    let whole = shown + mark + number;
    let marked = "#"@ + number;
    let place = shown.len() + mark.len() - 1;
    reveal_strlit("#");
    word_laws::lemma_mentions(whole, shown, 0);
    assert forall|i: int| 0 <= i < marked.len() implies #[trigger] marked[i] == whole[place
        + i] by {
        if i > 0 {
            assert(marked[i] == number[i - 1]);
        }
    }
    word_laws::lemma_mentions(whole, marked, place);
}

/// The attempts of a kind, up to a place.
pub open spec fn like(attempts: Seq<AttemptView>, place: int, end: int) -> Seq<AttemptView> {
    attempts.take(end).filter(|other: AttemptView| other.kind == attempts[place].kind)
}

/// An attempt is numbered among its like exactly where there are others of its kind, and its
/// number says how many of them were made by then.
pub proof fn attempts_are_numbered_among_their_like(attempts: Seq<AttemptView>, place: int)
    requires
        0 <= place < attempts.len(),
    ensures
        completed::local_ordinal(attempts, place) is Some <==> like(
            attempts,
            place,
            attempts.len() as int,
        ).len() > 1,
        completed::local_ordinal(attempts, place) matches Some(number) ==> number == like(
            attempts,
            place,
            place + 1,
        ).len(),
{
    let kind = attempts[place].kind;
    assert(attempts.take(attempts.len() as int) =~= attempts);
    lemma_kind_count(attempts, kind);
    lemma_kind_count(attempts.take(place + 1), kind);
}

proof fn lemma_kind_count(attempts: Seq<AttemptView>, kind: AttemptKind)
    ensures
        completed::kind_count(attempts, kind) == attempts.filter(
            |other: AttemptView| other.kind == kind,
        ).len(),
    decreases attempts.len(),
{
    reveal(Seq::filter);
    if attempts.len() > 0 {
        lemma_kind_count(attempts.drop_last(), kind);
    }
}

/// Whether an exchange served a lookup itself: it belongs to a DNS step, and was made for the
/// resolution.
pub open spec fn served(
    steps: Seq<NameResolutionStepView>,
    exchange: DnsExchangeObservationView,
) -> bool {
    &&& exchange.purpose == DnsExchangePurpose::FormalResolution
    &&& exists|i: int|
        0 <= i < steps.len() && (#[trigger] steps[i]).source == NameResolutionSource::Dns
            && steps[i].dns_exchanges.contains(exchange)
}

/// The exchanges of a lookup are exactly those of its DNS steps that served the resolution itself.
pub proof fn lookups_show_what_served_them(
    steps: Seq<NameResolutionStepView>,
    exchange: DnsExchangeObservationView,
)
    ensures
        name_resolution::formal_of_steps(steps).contains(exchange) <==> served(steps, exchange),
    decreases steps.len(),
{
    if steps.len() > 0 {
        let rest = steps.drop_last();
        let last = steps.len() - 1;
        let formal = |item: DnsExchangeObservationView| name_resolution::is_formal(item);
        lookups_show_what_served_them(rest, exchange);
        lists::lemma_filter_contains(steps[last].dns_exchanges, formal);
        let before = name_resolution::formal_of_steps(rest);
        let own = steps[last].dns_exchanges.filter(formal);
        let both = before + own;
        assert(both.contains(exchange) <==> before.contains(exchange) || own.contains(exchange)) by {
            if before.contains(exchange) {
                let i = choose|i: int| 0 <= i < before.len() && before[i] == exchange;
                assert(both[i] == exchange);
            }
            if own.contains(exchange) {
                let i = choose|i: int| 0 <= i < own.len() && own[i] == exchange;
                assert(both[before.len() + i] == exchange);
            }
            if both.contains(exchange) {
                let i = choose|i: int| 0 <= i < both.len() && both[i] == exchange;
                if i < before.len() {
                    assert(before[i] == exchange);
                } else {
                    assert(own[i - before.len()] == exchange);
                }
            }
        }
        if served(rest, exchange) {
            let i = choose|i: int|
                0 <= i < rest.len() && (#[trigger] rest[i]).source == NameResolutionSource::Dns
                    && rest[i].dns_exchanges.contains(exchange);
            assert(steps[i] == rest[i]);
        }
        if served(steps, exchange) {
            let i = choose|i: int|
                0 <= i < steps.len() && (#[trigger] steps[i]).source == NameResolutionSource::Dns
                    && steps[i].dns_exchanges.contains(exchange);
            if i < last {
                assert(rest[i] == steps[i]);
            }
        }
    }
}

/// The field on name resolution stands exactly where a name was given. It tells a failure without
/// a definite answer from an answer without an address, and addresses from the hosts file from
/// others.
pub proof fn name_resolution_is_told_where_a_name_was_given(run: CompletedDiagnosticView)
    ensures
        ({
            let told = completed::resolution_field(run);
            &&& told is None <==> run.hostname_resolution is NotRequested
            &&& run.hostname_resolution is NonDefinitiveFailure ==> told == Some(
                ("Name resolution"@, "failed without a definitive answer"@),
            )
            &&& run.hostname_resolution is SucceededWithoutUsableAddress ==> told == Some(
                ("Name resolution"@, "completed, but returned no usable IP address"@),
            )
            &&& run.hostname_resolution is DefinitiveNegative || run.hostname_resolution
                is NegativeWithoutUsableAddress ==> told == Some(
                ("Name resolution"@, "returned no usable IPv4 or IPv6 address"@),
            )
            &&& run.hostname_resolution is Succeeded ==> (told == Some(("Name source"@, "hosts"@))
                <==> (run.system_resolver matches Some(observation)
                && observation.name_resolution.steps.len() > 0
                && observation.name_resolution.steps.last().source == NameResolutionSource::Hosts))
        }),
{
    reveal_strlit("Name source");
    reveal_strlit("Name resolution");
    assert("Name source"@.len() == 11 && "Name resolution"@.len() == 15);
}

/// A report on a check that did not complete ends with the code that the process ends with.
pub proof fn reports_end_with_the_exit_code(result: DiagnosticResultView, theme: Theme)
    requires
        !(result is Completed),
    ensures
        exists|before: Seq<char>| #[trigger]
            presentation::with_field(
                before,
                theme,
                "Exit code"@,
                text::decimal(result.status().number() as nat),
            ) == presentation::report_text(result, theme),
{
    reveal_strlit("2");
    reveal_strlit("130");
    reveal_with_fuel(text::numeral, 4);
    assert(text::decimal(2) =~= "2"@);
    assert(text::decimal(130) =~= "130"@);
    let code = result.status().number() as nat;
    match result {
        DiagnosticResultView::ExecutionError(failure) => {
            assert(code == 2);
            let report = error::opening(
                theme,
                "× CHECK COULD NOT FINISH"@,
                Tint::Failure,
                error::explanation_text(failure.kind),
            );
            let actions = error::action_texts(failure.kind);
            let report = error::with_details(error::with_actions(report, theme, actions), theme);
            let report = presentation::with_field(
                report,
                theme,
                "Error type"@,
                error::type_text(failure.kind),
            );
            let report = error::with_escaped_field(
                report,
                theme,
                "Reason"@,
                failure.safe_message,
            );
            let report = error::with_partial_facts(report, theme, failure.partial_evidence);
            assert(presentation::with_field(report, theme, "Exit code"@, text::decimal(code))
                == presentation::report_text(result, theme));
        },
        DiagnosticResultView::Cancelled(cancelled) => {
            assert(code == 130);
            let report = error::opening(
                theme,
                "! CHECK CANCELLED"@,
                Tint::Warning,
                "Reach stopped because the check was interrupted. No final network result was produced."@,
            );
            let report = error::with_escaped_field(
                error::with_details(report, theme),
                theme,
                "Reason"@,
                cancelled.safe_message,
            );
            assert(presentation::with_field(report, theme, "Exit code"@, text::decimal(code))
                == presentation::report_text(result, theme));
        },
        DiagnosticResultView::Completed(_) => {},
    }
}

/// Evidence is told with what it holds: a fact that the system gave as text is told with that
/// text, a missing capability with its name, and a neighbor with its state now.
pub proof fn evidence_is_told_with_what_it_holds(run: CompletedDiagnosticView, item: EvidenceView)
    ensures
        ({
            let shown = completed::evidence_line(run, item);
            match item.fact {
                EvidenceFactView::InitialPath(value) => told_as(
                    shown,
                    "Snapshot path inference"@,
                    presentation::terminal_text(value),
                ),
                EvidenceFactView::CurrentPath(value) => told_as(
                    shown,
                    "Targeted OS path query"@,
                    presentation::terminal_text(value),
                ),
                EvidenceFactView::SystemResolverResult(value) => told_as(
                    shown,
                    "Name resolution"@,
                    presentation::terminal_text(value),
                ),
                EvidenceFactView::DirectDnsResult(value) => told_as(
                    shown,
                    "Direct DNS diagnostic"@,
                    presentation::terminal_text(value),
                ),
                EvidenceFactView::SnapshotInconsistency(value) => told_as(
                    shown,
                    "inconsistency"@,
                    presentation::terminal_text(value),
                ),
                EvidenceFactView::SocketPathComparison(value) => told_as(
                    shown,
                    "path comparison"@,
                    presentation::terminal_text(value),
                ),
                EvidenceFactView::NeighborTransition { before, after } => told_as(
                    shown,
                    "Neighbor before"@,
                    "after: "@ + completed::neighbor_text(after),
                ) && text::mentions(shown, completed::neighbor_before_text(before)),
                _ => true,
            }
        }),
{
    let shown = completed::evidence_line(run, item);
    match item.fact {
        EvidenceFactView::InitialPath(value) => {
            reveal_strlit("Snapshot path inference: ");
            reveal_strlit("Snapshot path inference");
            word_laws::lemma_mentions(
                "Snapshot path inference: "@,
                "Snapshot path inference"@,
                0,
            );
            lemma_told(
                "Snapshot path inference: "@,
                "Snapshot path inference"@,
                presentation::terminal_text(value),
            );
        },
        EvidenceFactView::CurrentPath(value) => {
            reveal_strlit("Targeted OS path query: ");
            reveal_strlit("Targeted OS path query");
            word_laws::lemma_mentions("Targeted OS path query: "@, "Targeted OS path query"@, 0);
            lemma_told(
                "Targeted OS path query: "@,
                "Targeted OS path query"@,
                presentation::terminal_text(value),
            );
        },
        EvidenceFactView::SystemResolverResult(value) => {
            reveal_strlit("Name resolution: ");
            reveal_strlit("Name resolution");
            word_laws::lemma_mentions("Name resolution: "@, "Name resolution"@, 0);
            lemma_told(
                "Name resolution: "@,
                "Name resolution"@,
                presentation::terminal_text(value),
            );
        },
        EvidenceFactView::DirectDnsResult(value) => {
            reveal_strlit("Direct DNS diagnostic: ");
            reveal_strlit("Direct DNS diagnostic");
            word_laws::lemma_mentions("Direct DNS diagnostic: "@, "Direct DNS diagnostic"@, 0);
            lemma_told(
                "Direct DNS diagnostic: "@,
                "Direct DNS diagnostic"@,
                presentation::terminal_text(value),
            );
        },
        EvidenceFactView::SnapshotInconsistency(value) => {
            let front = "Snapshot cross-check found an inconsistency: "@;
            reveal_strlit("Snapshot cross-check found an inconsistency: ");
            reveal_strlit("inconsistency");
            word_laws::lemma_mentions(front, "inconsistency"@, 30);
            lemma_told(front, "inconsistency"@, presentation::terminal_text(value));
        },
        EvidenceFactView::SocketPathComparison(value) => {
            let front = "Targeted OS path comparison: "@;
            reveal_strlit("Targeted OS path comparison: ");
            reveal_strlit("path comparison");
            word_laws::lemma_mentions(front, "path comparison"@, 12);
            lemma_told(front, "path comparison"@, presentation::terminal_text(value));
        },
        EvidenceFactView::NeighborTransition { before, after } => {
            lemma_change_is_told(
                completed::neighbor_before_text(before),
                completed::neighbor_text(after),
            );
        },
        _ => {},
    }
}

/// Whether a text tells a value under a heading.
pub open spec fn told_as(shown: Seq<char>, heading: Seq<char>, value: Seq<char>) -> bool {
    text::mentions(shown, heading) && text::mentions(shown, value)
}

proof fn lemma_told(front: Seq<char>, heading: Seq<char>, value: Seq<char>)
    requires
        text::mentions(front, heading),
    ensures
        told_as(front + value + "."@, heading, value),
{
    let none = Seq::<char>::empty();
    word_laws::lemma_mentions(value, value, 0);
    content_laws::lemma_mentioned_within(front, value, "."@, value);
    content_laws::lemma_mentioned_within(none, front, value + "."@, heading);
    assert(none + front + (value + "."@) =~= front + value + "."@);
}

proof fn lemma_change_is_told(first: Seq<char>, state: Seq<char>)
    ensures
        ({
            let shown = "Neighbor before: "@ + first + "; after: "@ + state + "."@;
            &&& told_as(shown, "Neighbor before"@, "after: "@ + state)
            &&& text::mentions(shown, first)
        }),
{
    let none = Seq::<char>::empty();
    let front = "Neighbor before: "@;
    let middle = "; after: "@;
    let last = "after: "@ + state;
    let shown = front + first + middle + state + "."@;
    reveal_strlit("Neighbor before: ");
    reveal_strlit("Neighbor before");
    reveal_strlit("; after: ");
    reveal_strlit("after: ");
    word_laws::lemma_mentions(front, "Neighbor before"@, 0);
    word_laws::lemma_mentions(first, first, 0);
    word_laws::lemma_mentions(last, last, 0);
    let rest = first + middle + state + "."@;
    content_laws::lemma_mentioned_within(none, front, rest, "Neighbor before"@);
    assert(none + front + rest =~= shown);
    let behind = middle + state + "."@;
    content_laws::lemma_mentioned_within(front, first, behind, first);
    assert(front + first + behind =~= shown);
    let ahead = front + first + "; "@;
    reveal_strlit("; ");
    assert(middle =~= "; "@ + "after: "@);
    content_laws::lemma_mentioned_within(ahead, last, "."@, last);
    assert(ahead + last + "."@ =~= shown);
}

/// The numeral of a hop.
pub open spec fn numeral_of(hop_limit: u8) -> Seq<char> {
    text::decimal(hop_limit as nat)
}

/// An attempt is called by its protocol and by what it was for; one along the path with its hop,
/// and a direct query with its type and transport.
pub proof fn attempts_are_called_by_their_kind(kind: AttemptKind)
    ensures
        ({
            let shown = completed::kind_text(kind);
            match kind {
                AttemptKind::TcpConnect => shown == "TCP connect"@,
                AttemptKind::TargetIcmpEcho => shown == "ICMP Echo"@,
                AttemptKind::NextHopIcmpEcho => shown == "Next-hop ICMP Echo"@,
                AttemptKind::TcpPath { hop_limit } => {
                    &&& text::mentions(shown, "TCP path"@)
                    &&& text::mentions(shown, numeral_of(hop_limit))
                },
                AttemptKind::IcmpPath { hop_limit } => {
                    &&& text::mentions(shown, "ICMP path"@)
                    &&& text::mentions(shown, numeral_of(hop_limit))
                },
                AttemptKind::DnsUdp { .. } => text::mentions(shown, "over UDP"@),
                AttemptKind::DnsTcp { .. } => text::mentions(shown, "over TCP"@),
            }
        }),
{
    match kind {
        AttemptKind::TcpPath { hop_limit } => {
            reveal_strlit("TCP path at hop ");
            reveal_strlit("TCP path");
            word_laws::lemma_mentions("TCP path at hop "@, "TCP path"@, 0);
            lemma_both("TCP path at hop "@, "TCP path"@, completed::hop_text(hop_limit));
        },
        AttemptKind::IcmpPath { hop_limit } => {
            reveal_strlit("ICMP path at hop ");
            reveal_strlit("ICMP path");
            word_laws::lemma_mentions("ICMP path at hop "@, "ICMP path"@, 0);
            lemma_both("ICMP path at hop "@, "ICMP path"@, completed::hop_text(hop_limit));
        },
        AttemptKind::DnsUdp { query_type } => {
            let asked = "Direct DNS "@ + name_resolution::query_type_text(query_type);
            reveal_strlit(" over UDP");
            reveal_strlit("over UDP");
            word_laws::lemma_mentions(" over UDP"@, "over UDP"@, 1);
            lemma_behind(asked, " over UDP"@, "over UDP"@);
        },
        AttemptKind::DnsTcp { query_type } => {
            let asked = "Direct DNS "@ + name_resolution::query_type_text(query_type);
            reveal_strlit(" over TCP");
            reveal_strlit("over TCP");
            word_laws::lemma_mentions(" over TCP"@, "over TCP"@, 1);
            lemma_behind(asked, " over TCP"@, "over TCP"@);
        },
        _ => {},
    }
}

proof fn lemma_behind(front: Seq<char>, back: Seq<char>, phrase: Seq<char>)
    requires
        text::mentions(back, phrase),
    ensures
        text::mentions(front + back, phrase),
{
    let none = Seq::<char>::empty();
    content_laws::lemma_mentioned_within(front, back, none, phrase);
    assert(front + back + none =~= front + back);
}

proof fn lemma_both(front: Seq<char>, phrase: Seq<char>, back: Seq<char>)
    requires
        text::mentions(front, phrase),
    ensures
        text::mentions(front + back, phrase),
        text::mentions(front + back, back),
{
    let none = Seq::<char>::empty();
    content_laws::lemma_mentioned_within(none, front, back, phrase);
    assert(none + front + back =~= front + back);
    word_laws::lemma_mentions(back, back, 0);
    lemma_behind(front, back, back);
}

/// The check that was asked for is told as a TCP connection to its port, or as an echo.
pub proof fn checks_are_told_with_their_port(port: Option<NonZeroU16>)
    ensures
        match port {
            Some(port) => {
                &&& text::mentions(completed::check_text(Some(port)), "TCP connection"@)
                &&& text::mentions(
                    completed::check_text(Some(port)),
                    text::decimal(port.number() as nat),
                )
            },
            None => completed::check_text(None) == "ICMP Echo"@,
        },
{
    if let Some(port) = port {
        reveal_strlit("TCP connection to port ");
        reveal_strlit("TCP connection");
        word_laws::lemma_mentions("TCP connection to port "@, "TCP connection"@, 0);
        lemma_both("TCP connection to port "@, "TCP connection"@, completed::port_text(port));
    }
}

} // verus!
