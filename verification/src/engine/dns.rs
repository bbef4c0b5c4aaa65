//! A series of direct DNS queries of one type to one resolver.

use vstd::prelude::*;

use crate::engine::observation;
use crate::io::{
    DiagnosticIoError, DiagnosticIoErrorView, DirectDnsOperation, DirectDnsOperationView,
    DirectDnsTransportReason,
};
use crate::model::{Attempt, AttemptId, AttemptView, DnsQueryType, ResolverTransport};
use crate::net::SocketAddr;
use crate::policy::{DNS_TCP_BUDGET, DNS_UDP_BUDGET};
use crate::time::Duration;

verus! {

/// What a series of queries waits for.
#[derive(Clone, Copy, Debug, Eq, PartialEq, Structural)]
pub enum DnsStage {
    FirstUdp,
    SecondUdp,
    FirstTcp,
    SecondTcp,
}

impl DeepView for DnsStage {
    type V = DnsStage;

    open spec fn deep_view(&self) -> DnsStage {
        *self
    }
}

/// A series of queries, between two operations.
#[derive(Debug, Eq, PartialEq)]
pub struct DnsSeries {
    query_name: String,
    resolver: SocketAddr,
    query_type: DnsQueryType,
    base_id: u64,
    tcp_id: u64,
    reason: DirectDnsTransportReason,
    attempts: Vec<Attempt>,
    stage: DnsStage,
}

/// The contents of a [`DnsSeries`].
#[verifier::ext_equal]
pub struct DnsSeriesView {
    pub query_name: Seq<char>,
    pub resolver: SocketAddr,
    pub query_type: DnsQueryType,
    pub base_id: u64,
    pub tcp_id: u64,
    pub reason: DirectDnsTransportReason,
    pub attempts: Seq<AttemptView>,
    pub stage: DnsStage,
}

impl DeepView for DnsSeries {
    type V = DnsSeriesView;

    closed spec fn deep_view(&self) -> DnsSeriesView {
        DnsSeriesView {
            query_name: self.query_name.deep_view(),
            resolver: self.resolver,
            query_type: self.query_type,
            base_id: self.base_id,
            tcp_id: self.tcp_id,
            reason: self.reason,
            attempts: self.attempts.deep_view(),
            stage: self.stage,
        }
    }
}

impl Clone for DnsSeries {
    fn clone(&self) -> (copy: Self)
        ensures
            copy.deep_view() == self.deep_view(),
    {
        let copy = DnsSeries {
            query_name: self.query_name.clone(),
            resolver: self.resolver,
            query_type: self.query_type,
            base_id: self.base_id,
            tcp_id: self.tcp_id,
            reason: self.reason,
            attempts: self.attempts.clone(),
            stage: self.stage,
        };
        assert(copy.attempts.deep_view() =~= self.attempts.deep_view());
        copy
    }
}

/// A query that is to be sent next.
#[derive(Debug, Eq, PartialEq)]
pub enum DnsAction {
    Udp(DirectDnsOperation),
    Tcp(DirectDnsOperation),
}

/// The contents of a [`DnsAction`].
#[verifier::ext_equal]
pub enum DnsActionView {
    Udp(DirectDnsOperationView),
    Tcp(DirectDnsOperationView),
}

impl DeepView for DnsAction {
    type V = DnsActionView;

    open spec fn deep_view(&self) -> DnsActionView {
        match self {
            DnsAction::Udp(value) => DnsActionView::Udp(value.deep_view()),
            DnsAction::Tcp(value) => DnsActionView::Tcp(value.deep_view()),
        }
    }
}

impl Clone for DnsAction {
    fn clone(&self) -> (copy: Self)
        ensures
            copy.deep_view() == self.deep_view(),
    {
        match self {
            DnsAction::Udp(value) => DnsAction::Udp(value.clone()),
            DnsAction::Tcp(value) => DnsAction::Tcp(value.clone()),
        }
    }
}

/// What came of a query.
#[derive(Debug, Eq, PartialEq)]
pub enum DnsEvent {
    Attempted(Attempt),
    Failed(DiagnosticIoError),
}

/// The contents of a [`DnsEvent`].
#[verifier::ext_equal]
pub enum DnsEventView {
    Attempted(AttemptView),
    Failed(DiagnosticIoErrorView),
}

impl DeepView for DnsEvent {
    type V = DnsEventView;

    open spec fn deep_view(&self) -> DnsEventView {
        match self {
            DnsEvent::Attempted(value) => DnsEventView::Attempted(value.deep_view()),
            DnsEvent::Failed(value) => DnsEventView::Failed(value.deep_view()),
        }
    }
}

impl Clone for DnsEvent {
    fn clone(&self) -> (copy: Self)
        ensures
            copy.deep_view() == self.deep_view(),
    {
        match self {
            DnsEvent::Attempted(value) => DnsEvent::Attempted(value.clone()),
            DnsEvent::Failed(value) => DnsEvent::Failed(value.clone()),
        }
    }
}

/// Where a series of queries stands.
#[derive(Debug, Eq, PartialEq)]
pub enum DnsProgress {
    Pending { series: DnsSeries, action: DnsAction },
    Finished(Vec<Attempt>),
    Failed(DiagnosticIoError),
}

/// The contents of a [`DnsProgress`].
#[verifier::ext_equal]
pub enum DnsProgressView {
    Pending { series: DnsSeriesView, action: DnsActionView },
    Finished(Seq<AttemptView>),
    Failed(DiagnosticIoErrorView),
}

impl DeepView for DnsProgress {
    type V = DnsProgressView;

    open spec fn deep_view(&self) -> DnsProgressView {
        match self {
            DnsProgress::Pending { series, action } => DnsProgressView::Pending {
                series: series.deep_view(),
                action: action.deep_view(),
            },
            DnsProgress::Finished(value) => DnsProgressView::Finished(value.deep_view()),
            DnsProgress::Failed(value) => DnsProgressView::Failed(value.deep_view()),
        }
    }
}

impl Clone for DnsProgress {
    fn clone(&self) -> (copy: Self)
        ensures
            copy.deep_view() == self.deep_view(),
    {
        match self {
            DnsProgress::Pending { series, action } => DnsProgress::Pending {
                series: series.clone(),
                action: action.clone(),
            },
            DnsProgress::Finished(value) => {
                let duplicate = value.clone();
                assert(duplicate.deep_view() =~= value.deep_view());
                DnsProgress::Finished(duplicate)
            },
            DnsProgress::Failed(value) => DnsProgress::Failed(value.clone()),
        }
    }
}

/// A query with its identifier; the message carries the identifier's low bits.
pub open spec fn query(
    query_name: Seq<char>,
    resolver: SocketAddr,
    query_type: DnsQueryType,
    id: u64,
    budget: u64,
    reason: DirectDnsTransportReason,
) -> DirectDnsOperationView {
    DirectDnsOperationView {
        attempt_id: AttemptId(id),
        message_id: #[verifier::truncate] (id as u16),
        resolver,
        query_name,
        query_type,
        budget: Duration::of_millis(budget),
        reason,
    }
}

/// An identifier some places on.
pub open spec fn offset(id: u64, places: int) -> u64 {
    (id + places) as u64
}

impl DnsSeriesView {
    pub open spec fn ask_udp(self, stage: DnsStage, id: u64) -> DnsProgressView {
        DnsProgressView::Pending {
            series: DnsSeriesView { stage, ..self },
            action: DnsActionView::Udp(
                query(
                    self.query_name,
                    self.resolver,
                    self.query_type,
                    id,
                    DNS_UDP_BUDGET,
                    DirectDnsTransportReason::ConfiguredTransport,
                ),
            ),
        }
    }

    pub open spec fn ask_tcp(self, stage: DnsStage, id: u64) -> DnsProgressView {
        DnsProgressView::Pending {
            series: DnsSeriesView { stage, ..self },
            action: DnsActionView::Tcp(
                query(
                    self.query_name,
                    self.resolver,
                    self.query_type,
                    id,
                    DNS_TCP_BUDGET,
                    self.reason,
                ),
            ),
        }
    }

    /// Turns to TCP for a reason.
    pub open spec fn turn_to_tcp(self, reason: DirectDnsTransportReason) -> DnsProgressView {
        let id = offset(self.base_id, 10);
        DnsSeriesView { reason, tcp_id: id, ..self }.ask_tcp(DnsStage::FirstTcp, id)
    }

    pub open spec fn after_attempt(self, attempt: AttemptView) -> DnsProgressView {
        let seen = DnsSeriesView { attempts: self.attempts.push(attempt), ..self };
        if !(attempt.outcome is Dns) {
            DnsProgressView::Failed(observation::wrong_dns_outcome())
        } else {
            match self.stage {
                DnsStage::FirstUdp => if observation::dns_truncated(attempt) {
                    seen.turn_to_tcp(DirectDnsTransportReason::UdpTruncationCompletion)
                } else if observation::timed_out(attempt) {
                    seen.ask_udp(DnsStage::SecondUdp, offset(self.base_id, 1))
                } else {
                    DnsProgressView::Finished(seen.attempts)
                },
                DnsStage::SecondUdp => if observation::dns_truncated(attempt) {
                    seen.turn_to_tcp(DirectDnsTransportReason::UdpTruncationCompletion)
                } else if observation::timed_out(attempt) {
                    seen.turn_to_tcp(DirectDnsTransportReason::UdpTimeoutComparison)
                } else {
                    DnsProgressView::Finished(seen.attempts)
                },
                DnsStage::FirstTcp => if observation::timed_out(attempt) {
                    seen.ask_tcp(DnsStage::SecondTcp, offset(self.tcp_id, 1))
                } else {
                    DnsProgressView::Finished(seen.attempts)
                },
                DnsStage::SecondTcp => DnsProgressView::Finished(seen.attempts),
            }
        }
    }

    /// The step from one query to the next. A truncated answer is completed over TCP, a query
    /// that timed out is repeated once, and one that timed out twice is compared over TCP.
    pub open spec fn next(self, event: DnsEventView) -> DnsProgressView {
        match event {
            DnsEventView::Attempted(attempt) => self.after_attempt(attempt),
            DnsEventView::Failed(error) => DnsProgressView::Failed(error),
        }
    }

    /// Whether the identifiers have room.
    pub open spec fn valid(self) -> bool {
        &&& self.base_id + 100 <= u64::MAX
        &&& self.base_id <= self.tcp_id <= self.base_id + 10
        &&& self.attempts.len() <= (match self.stage {
            DnsStage::FirstUdp => 0int,
            DnsStage::SecondUdp => 1int,
            DnsStage::FirstTcp => 2int,
            DnsStage::SecondTcp => 3int,
        })
    }
}

impl DnsProgressView {
    /// Whether a series that waits is valid.
    pub open spec fn valid(self) -> bool {
        match self {
            DnsProgressView::Pending { series, .. } => series.valid(),
            _ => true,
        }
    }
}

/// The start of a series over the resolver's own transport.
pub open spec fn queries_started(
    query_name: Seq<char>,
    resolver: SocketAddr,
    transport: ResolverTransport,
    query_type: DnsQueryType,
    base_id: u64,
) -> DnsProgressView {
    let series = DnsSeriesView {
        query_name,
        resolver,
        query_type,
        base_id,
        tcp_id: base_id,
        reason: DirectDnsTransportReason::ConfiguredTransport,
        attempts: Seq::empty(),
        stage: DnsStage::FirstUdp,
    };
    if transport == ResolverTransport::Tcp {
        series.ask_tcp(DnsStage::FirstTcp, base_id)
    } else {
        series.ask_udp(DnsStage::FirstUdp, base_id)
    }
}

pub fn dns_operation(
    query_name: &str,
    resolver: SocketAddr,
    query_type: DnsQueryType,
    id: u64,
    budget: u64,
    reason: DirectDnsTransportReason,
) -> (result: DirectDnsOperation)
    ensures
        result.deep_view() == query(query_name@, resolver, query_type, id, budget, reason),
{
    DirectDnsOperation {
        attempt_id: AttemptId(id),
        message_id: #[verifier::truncate] (id as u16),
        resolver,
        query_name: query_name.to_owned(),
        query_type,
        budget: Duration::from_millis(budget),
        reason,
    }
}

impl DnsSeries {
    /// Begins a series of queries.
    pub fn start(
        query_name: &str,
        resolver: SocketAddr,
        transport: ResolverTransport,
        query_type: DnsQueryType,
        base_id: u64,
    ) -> (result: DnsProgress)
        requires
            base_id + 100 <= u64::MAX,
        ensures
            result.deep_view() == queries_started(
                query_name@,
                resolver,
                transport,
                query_type,
                base_id,
            ),
            result.deep_view().valid(),
    {
        let attempts: Vec<Attempt> = Vec::new();
        assert(attempts.deep_view() =~= Seq::<AttemptView>::empty());
        let series = DnsSeries {
            query_name: query_name.to_owned(),
            resolver,
            query_type,
            base_id,
            tcp_id: base_id,
            reason: DirectDnsTransportReason::ConfiguredTransport,
            attempts,
            stage: DnsStage::FirstUdp,
        };
        if transport == ResolverTransport::Tcp {
            series.request_tcp(DnsStage::FirstTcp, base_id)
        } else {
            series.request_udp(DnsStage::FirstUdp, base_id)
        }
    }

    fn request_udp(self, stage: DnsStage, id: u64) -> (result: DnsProgress)
        ensures
            result.deep_view() == self.deep_view().ask_udp(stage, id),
    {
        let mut series = self;
        series.stage = stage;
        let action = DnsAction::Udp(
            dns_operation(
                series.query_name.as_str(),
                series.resolver,
                series.query_type,
                id,
                DNS_UDP_BUDGET,
                DirectDnsTransportReason::ConfiguredTransport,
            ),
        );
        DnsProgress::Pending { series, action }
    }

    fn request_tcp(self, stage: DnsStage, id: u64) -> (result: DnsProgress)
        ensures
            result.deep_view() == self.deep_view().ask_tcp(stage, id),
    {
        let mut series = self;
        series.stage = stage;
        let action = DnsAction::Tcp(
            dns_operation(
                series.query_name.as_str(),
                series.resolver,
                series.query_type,
                id,
                DNS_TCP_BUDGET,
                series.reason,
            ),
        );
        DnsProgress::Pending { series, action }
    }

    fn change_to_tcp(self, reason: DirectDnsTransportReason) -> (result: DnsProgress)
        requires
            self.deep_view().base_id + 100 <= u64::MAX,
        ensures
            result.deep_view() == self.deep_view().turn_to_tcp(reason),
    {
        let mut series = self;
        let id: u64 = series.base_id + 10;
        series.reason = reason;
        series.tcp_id = id;
        series.request_tcp(DnsStage::FirstTcp, id)
    }

    /// Takes the result of the query that was asked for, and says what comes next.
    pub fn advance(self, event: DnsEvent) -> (result: DnsProgress)
        requires
            self.deep_view().valid(),
        ensures
            result.deep_view() == self.deep_view().next(event.deep_view()),
            result.deep_view().valid(),
    {
        let attempt = match event {
            DnsEvent::Attempted(attempt) => attempt,
            DnsEvent::Failed(error) => return DnsProgress::Failed(error),
        };
        if !observation::is_dns_attempt(&attempt) {
            return DnsProgress::Failed(observation::wrong_dns_outcome_error());
        }
        let timed_out = observation::is_attempt_timeout(&attempt);
        let truncated = observation::is_dns_truncated(&attempt);
        let mut series = self;
        observation::push_attempt(&mut series.attempts, attempt);
        match series.stage {
            DnsStage::FirstUdp => if truncated {
                series.change_to_tcp(DirectDnsTransportReason::UdpTruncationCompletion)
            } else if timed_out {
                let id: u64 = series.base_id + 1;
                series.request_udp(DnsStage::SecondUdp, id)
            } else {
                DnsProgress::Finished(series.attempts)
            },
            DnsStage::SecondUdp => if truncated {
                series.change_to_tcp(DirectDnsTransportReason::UdpTruncationCompletion)
            } else if timed_out {
                series.change_to_tcp(DirectDnsTransportReason::UdpTimeoutComparison)
            } else {
                DnsProgress::Finished(series.attempts)
            },
            DnsStage::FirstTcp => if timed_out {
                let id: u64 = series.tcp_id + 1;
                series.request_tcp(DnsStage::SecondTcp, id)
            } else {
                DnsProgress::Finished(series.attempts)
            },
            DnsStage::SecondTcp => DnsProgress::Finished(series.attempts),
        }
    }
}

/// A series has at most two queries over UDP and two over TCP, keeps every attempt, and repeats
/// a query over the same transport only where it timed out.
pub proof fn query_series_are_bounded(series: DnsSeriesView, event: DnsEventView)
    requires
        series.valid(),
    ensures
        series.next(event).valid(),
        series.next(event) matches DnsProgressView::Finished(attempts) ==> attempts.len() <= 4
            && attempts.drop_last() == series.attempts,
        series.next(event) matches DnsProgressView::Pending { series: later, .. }
            ==> later.attempts.drop_last() == series.attempts && (later.stage == DnsStage::SecondUdp
            || later.stage == DnsStage::SecondTcp ==> observation::timed_out(later.attempts.last())),
{
}

} // verus!
