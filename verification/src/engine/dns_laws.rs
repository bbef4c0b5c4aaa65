//! Which queries a series sends, and when it ends.

use vstd::prelude::*;

use crate::engine::dns::{
    self, DnsActionView, DnsEventView, DnsProgressView, DnsSeriesView, DnsStage,
};
use crate::io::{DirectDnsOperationView, DirectDnsTransportReason};
use crate::model::{
    AttemptOutcomeView, AttemptView, DnsAttemptResultView, DnsQueryType, ResolverTransport,
};
use crate::net::SocketAddr;
use crate::time::Duration;

verus! {

/// Where a series stands once events have been handed to it.
pub open spec fn followed(progress: DnsProgressView, events: Seq<DnsEventView>) -> DnsProgressView
    decreases events.len(),
{
    if events.len() == 0 {
        progress
    } else {
        match progress {
            DnsProgressView::Pending { series, .. } => followed(
                series.next(events[0]),
                events.drop_first(),
            ),
            _ => progress,
        }
    }
}

/// Whether a query was not answered in time.
pub open spec fn is_late(attempt: AttemptView) -> bool {
    attempt.outcome == AttemptOutcomeView::Dns(DnsAttemptResultView::Timeout)
}

/// Whether the answer to a query was cut off.
pub open spec fn is_cut(attempt: AttemptView) -> bool {
    match attempt.outcome {
        AttemptOutcomeView::Dns(
            DnsAttemptResultView::Response { truncated, .. },
        ) => truncated,
        _ => false,
    }
}

/// How many of the attempts went over UDP: a second one where the first was late.
pub open spec fn udp_count(attempts: Seq<AttemptView>) -> int {
    if attempts.len() > 1 && is_late(attempts[0]) {
        2
    } else {
        1
    }
}

/// Why a series over UDP turns to TCP, where it does.
pub open spec fn turn(attempts: Seq<AttemptView>) -> Option<DirectDnsTransportReason> {
    let count = udp_count(attempts);
    if is_cut(attempts[count - 1]) {
        Some(DirectDnsTransportReason::UdpTruncationCompletion)
    } else if count == 2 && is_late(attempts[1]) {
        Some(DirectDnsTransportReason::UdpTimeoutComparison)
    } else {
        None
    }
}

/// Whether a series has no query left to send after the attempts that it made.
pub open spec fn is_answered(attempts: Seq<AttemptView>, tcp_only: bool) -> bool {
    let last = attempts[attempts.len() - 1];
    if tcp_only {
        ||| attempts.len() == 1 && !is_late(last)
        ||| attempts.len() == 2 && is_late(attempts[0])
    } else {
        let count = udp_count(attempts);
        let over_tcp = attempts.len() - count;
        &&& attempts.len() > 0
        &&& if turn(attempts) is Some {
            ||| over_tcp == 1 && !is_late(last)
            ||| over_tcp == 2 && is_late(attempts[count])
        } else {
            over_tcp == 0 && !is_late(last)
        }
    }
}

/// Whether an action is the query that is due after the attempts that were made: over the
/// transport of the resolver first, once more where it was late, and over TCP where the answer
/// over UDP was cut off or twice late.
pub open spec fn is_due(action: DnsActionView, attempts: Seq<AttemptView>, tcp_only: bool) -> bool {
    let repeated = attempts.len() == 1 && is_late(attempts[0]);
    match action {
        DnsActionView::Udp(operation) => {
            &&& !tcp_only
            &&& attempts.len() == 0 || repeated
            &&& operation.reason == DirectDnsTransportReason::ConfiguredTransport
        },
        DnsActionView::Tcp(operation) => if tcp_only {
            &&& attempts.len() == 0 || repeated
            &&& operation.reason == DirectDnsTransportReason::ConfiguredTransport
        } else {
            let count = udp_count(attempts);
            &&& attempts.len() >= count
            &&& turn(attempts) == Some(operation.reason)
            &&& attempts.len() == count || (attempts.len() == count + 1 && is_late(attempts[count]))
        },
    }
}

/// The operation of an action, and the time that it has: two seconds over UDP, five over TCP.
pub open spec fn operation_of(action: DnsActionView) -> (DirectDnsOperationView, u64) {
    match action {
        DnsActionView::Udp(operation) => (operation, 2_000),
        DnsActionView::Tcp(operation) => (operation, 5_000),
    }
}

/// Whether an action asks one resolver for one name and type, under an identifier of the series.
pub open spec fn asks(
    action: DnsActionView,
    query_name: Seq<char>,
    resolver: SocketAddr,
    query_type: DnsQueryType,
    base_id: u64,
) -> bool {
    let (operation, budget) = operation_of(action);
    &&& operation.query_name == query_name
    &&& operation.resolver == resolver
    &&& operation.query_type == query_type
    &&& operation.budget == Duration::of_millis(budget)
    &&& operation.message_id == operation.attempt_id.0 % 0x1_0000
    &&& base_id <= operation.attempt_id.0 < base_id + 100
}

/// A series always asks the resolver that it is for, for its name and type. It sends exactly the
/// query that the attempts so far call for, and ends exactly where they call for none.
pub proof fn queries_follow_the_answers(
    query_name: Seq<char>,
    resolver: SocketAddr,
    transport: ResolverTransport,
    query_type: DnsQueryType,
    base_id: u64,
    events: Seq<DnsEventView>,
)
    requires
        base_id + 100 <= u64::MAX,
    ensures
        ({
            let tcp_only = transport == ResolverTransport::Tcp;
            match followed(
                dns::queries_started(query_name, resolver, transport, query_type, base_id),
                events,
            ) {
                DnsProgressView::Pending { series, action } => {
                    &&& asks(action, query_name, resolver, query_type, base_id)
                    &&& is_due(action, series.attempts, tcp_only)
                },
                DnsProgressView::Finished(attempts) => is_answered(attempts, tcp_only),
                DnsProgressView::Failed(_) => true,
            }
        }),
{
    let start = dns::queries_started(query_name, resolver, transport, query_type, base_id);
    let tcp_only = transport == ResolverTransport::Tcp;
    lemma_low_bits(base_id);
    lemma_series(start, query_name, resolver, query_type, base_id, tcp_only, events);
}

/// Every answer is kept, in order, and a series fails exactly where a query could not be sent or
/// its answer is none to a DNS query.
pub proof fn answers_to_queries_are_kept(series: DnsSeriesView, event: DnsEventView)
    ensures
        match (series.next(event), event) {
            (
                DnsProgressView::Pending { series: later, .. },
                DnsEventView::Attempted(attempt),
            ) => attempt.outcome is Dns && later.attempts == series.attempts.push(attempt),
            (
                DnsProgressView::Finished(attempts),
                DnsEventView::Attempted(attempt),
            ) => attempt.outcome is Dns && attempts == series.attempts.push(attempt),
            (DnsProgressView::Failed(_), DnsEventView::Attempted(attempt)) => !(attempt.outcome
                is Dns),
            (DnsProgressView::Failed(error), DnsEventView::Failed(reported)) => error == reported,
            _ => false,
        },
{
}

proof fn lemma_low_bits(id: u64)
    ensures
        #[verifier::truncate] (id as u16) == id % 0x1_0000,
{
    assert(#[verifier::truncate] (id as u16) == id % 0x1_0000) by (bit_vector);
}

/// What is known of a series by its stage.
spec fn recalls(
    series: DnsSeriesView,
    query_name: Seq<char>,
    resolver: SocketAddr,
    query_type: DnsQueryType,
    base_id: u64,
    tcp_only: bool,
) -> bool {
    let attempts = series.attempts;
    let count = udp_count(attempts);
    &&& series.valid()
    &&& series.query_name == query_name
    &&& series.resolver == resolver
    &&& series.query_type == query_type
    &&& series.base_id == base_id
    &&& match series.stage {
        DnsStage::FirstUdp => !tcp_only && attempts.len() == 0,
        DnsStage::SecondUdp => !tcp_only && attempts.len() == 1 && is_late(attempts[0]),
        DnsStage::FirstTcp => if tcp_only {
            attempts.len() == 0 && series.reason == DirectDnsTransportReason::ConfiguredTransport
        } else {
            attempts.len() == count && turn(attempts) == Some(series.reason)
        },
        DnsStage::SecondTcp => if tcp_only {
            attempts.len() == 1 && is_late(attempts[0]) && series.reason
                == DirectDnsTransportReason::ConfiguredTransport
        } else {
            attempts.len() == count + 1 && turn(attempts) == Some(series.reason) && is_late(
                attempts[count],
            )
        },
    }
}

spec fn is_in_order(
    progress: DnsProgressView,
    query_name: Seq<char>,
    resolver: SocketAddr,
    query_type: DnsQueryType,
    base_id: u64,
    tcp_only: bool,
) -> bool {
    match progress {
        DnsProgressView::Pending { series, action } => {
            &&& recalls(series, query_name, resolver, query_type, base_id, tcp_only)
            &&& asks(action, query_name, resolver, query_type, base_id)
            &&& is_due(action, series.attempts, tcp_only)
        },
        DnsProgressView::Finished(attempts) => is_answered(attempts, tcp_only),
        DnsProgressView::Failed(_) => true,
    }
}

proof fn lemma_series(
    progress: DnsProgressView,
    query_name: Seq<char>,
    resolver: SocketAddr,
    query_type: DnsQueryType,
    base_id: u64,
    tcp_only: bool,
    events: Seq<DnsEventView>,
)
    requires
        is_in_order(progress, query_name, resolver, query_type, base_id, tcp_only),
    ensures
        is_in_order(
            followed(progress, events),
            query_name,
            resolver,
            query_type,
            base_id,
            tcp_only,
        ),
    decreases events.len(),
{
    if events.len() > 0 {
        if let DnsProgressView::Pending { series, action } = progress {
            lemma_step(series, query_name, resolver, query_type, base_id, tcp_only, events[0]);
            lemma_series(
                series.next(events[0]),
                query_name,
                resolver,
                query_type,
                base_id,
                tcp_only,
                events.drop_first(),
            );
        }
    }
}

proof fn lemma_step(
    series: DnsSeriesView,
    query_name: Seq<char>,
    resolver: SocketAddr,
    query_type: DnsQueryType,
    base_id: u64,
    tcp_only: bool,
    event: DnsEventView,
)
    requires
        recalls(series, query_name, resolver, query_type, base_id, tcp_only),
    ensures
        is_in_order(series.next(event), query_name, resolver, query_type, base_id, tcp_only),
{
    lemma_low_bits(dns::offset(series.base_id, 1));
    lemma_low_bits(dns::offset(series.base_id, 10));
    lemma_low_bits(dns::offset(series.tcp_id, 1));
    if let DnsEventView::Attempted(attempt) = event {
        let attempts = series.attempts.push(attempt);
        assert(attempts[attempts.len() - 1] == attempt);
        assert forall|i: int| 0 <= i < series.attempts.len() implies #[trigger] attempts[i]
            == series.attempts[i] by {}
        if series.attempts.len() > 0 {
            assert(attempts[0] == series.attempts[0]);
        }
        if series.attempts.len() > 1 {
            assert(attempts[1] == series.attempts[1]);
        }
    }
}

} // verus!
