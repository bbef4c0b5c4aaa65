//! The operations that a run asks for and the errors that they can end in.

use vstd::prelude::*;

use crate::model::{
    AttemptId, DnsQueryType, NeighborIdentity, NeighborIdentityView, TargetIp, TargetIpView,
};
use crate::net::SocketAddr;
use crate::time::Duration;

verus! {

#[derive(Clone, Copy, Debug, Eq, PartialEq, Structural)]
pub enum DiagnosticIoErrorKind {
    Cancelled,
    RequiredCapabilityUnavailable,
    ResourceExhausted,
    Internal,
}

impl DeepView for DiagnosticIoErrorKind {
    type V = DiagnosticIoErrorKind;

    open spec fn deep_view(&self) -> DiagnosticIoErrorKind {
        *self
    }
}

/// Why an operation could not be carried out at all.
#[derive(Debug, Eq, PartialEq)]
pub struct DiagnosticIoError {
    pub kind: DiagnosticIoErrorKind,
    pub safe_message: String,
}

/// The contents of a [`DiagnosticIoError`].
#[verifier::ext_equal]
pub struct DiagnosticIoErrorView {
    pub kind: DiagnosticIoErrorKind,
    pub safe_message: Seq<char>,
}

impl DeepView for DiagnosticIoError {
    type V = DiagnosticIoErrorView;

    open spec fn deep_view(&self) -> DiagnosticIoErrorView {
        DiagnosticIoErrorView {
            kind: self.kind,
            safe_message: self.safe_message.deep_view(),
        }
    }
}

impl Clone for DiagnosticIoError {
    fn clone(&self) -> (copy: Self)
        ensures
            copy.deep_view() == self.deep_view(),
    {
        DiagnosticIoError {
            kind: self.kind,
            safe_message: self.safe_message.clone(),
        }
    }
}

impl DiagnosticIoError {
    #[must_use]
    pub fn new(kind: DiagnosticIoErrorKind, message: &str) -> (result: DiagnosticIoError)
        ensures
            result.deep_view() == (DiagnosticIoErrorView { kind, safe_message: message@ }),
    {
        DiagnosticIoError { kind, safe_message: message.to_owned() }
    }
}

#[derive(Debug, Eq, PartialEq)]
pub enum IcmpEchoSubject {
    Target(TargetIp),
    NextHop(NeighborIdentity),
}

/// The contents of a [`IcmpEchoSubject`].
#[verifier::ext_equal]
pub enum IcmpEchoSubjectView {
    Target(TargetIpView),
    NextHop(NeighborIdentityView),
}

impl DeepView for IcmpEchoSubject {
    type V = IcmpEchoSubjectView;

    open spec fn deep_view(&self) -> IcmpEchoSubjectView {
        match self {
            IcmpEchoSubject::Target(value) => IcmpEchoSubjectView::Target(value.deep_view()),
            IcmpEchoSubject::NextHop(value) => IcmpEchoSubjectView::NextHop(value.deep_view()),
        }
    }
}

impl Clone for IcmpEchoSubject {
    fn clone(&self) -> (copy: Self)
        ensures
            copy.deep_view() == self.deep_view(),
    {
        match self {
            IcmpEchoSubject::Target(value) => IcmpEchoSubject::Target(value.clone()),
            IcmpEchoSubject::NextHop(value) => IcmpEchoSubject::NextHop(value.clone()),
        }
    }
}

#[derive(Debug, Eq, PartialEq)]
pub struct TcpOperation {
    pub attempt_id: AttemptId,
    pub target: TargetIp,
    pub port: u16,
    pub budget: Duration,
}

/// The contents of a [`TcpOperation`].
#[verifier::ext_equal]
pub struct TcpOperationView {
    pub attempt_id: AttemptId,
    pub target: TargetIpView,
    pub port: u16,
    pub budget: Duration,
}

impl DeepView for TcpOperation {
    type V = TcpOperationView;

    open spec fn deep_view(&self) -> TcpOperationView {
        TcpOperationView {
            attempt_id: self.attempt_id,
            target: self.target.deep_view(),
            port: self.port,
            budget: self.budget,
        }
    }
}

impl Clone for TcpOperation {
    fn clone(&self) -> (copy: Self)
        ensures
            copy.deep_view() == self.deep_view(),
    {
        TcpOperation {
            attempt_id: self.attempt_id,
            target: self.target.clone(),
            port: self.port,
            budget: self.budget,
        }
    }
}

#[derive(Debug, Eq, PartialEq)]
pub struct IcmpOperation {
    pub attempt_id: AttemptId,
    pub subject: IcmpEchoSubject,
    pub budget: Duration,
}

/// The contents of a [`IcmpOperation`].
#[verifier::ext_equal]
pub struct IcmpOperationView {
    pub attempt_id: AttemptId,
    pub subject: IcmpEchoSubjectView,
    pub budget: Duration,
}

impl DeepView for IcmpOperation {
    type V = IcmpOperationView;

    open spec fn deep_view(&self) -> IcmpOperationView {
        IcmpOperationView {
            attempt_id: self.attempt_id,
            subject: self.subject.deep_view(),
            budget: self.budget,
        }
    }
}

impl Clone for IcmpOperation {
    fn clone(&self) -> (copy: Self)
        ensures
            copy.deep_view() == self.deep_view(),
    {
        IcmpOperation {
            attempt_id: self.attempt_id,
            subject: self.subject.clone(),
            budget: self.budget,
        }
    }
}

#[derive(Debug, Eq, PartialEq)]
pub struct PathOperation {
    pub attempt_id: AttemptId,
    pub target: TargetIp,
    pub port: Option<u16>,
    pub hop_limit: u8,
    pub budget: Duration,
}

/// The contents of a [`PathOperation`].
#[verifier::ext_equal]
pub struct PathOperationView {
    pub attempt_id: AttemptId,
    pub target: TargetIpView,
    pub port: Option<u16>,
    pub hop_limit: u8,
    pub budget: Duration,
}

impl DeepView for PathOperation {
    type V = PathOperationView;

    open spec fn deep_view(&self) -> PathOperationView {
        PathOperationView {
            attempt_id: self.attempt_id,
            target: self.target.deep_view(),
            port: self.port,
            hop_limit: self.hop_limit,
            budget: self.budget,
        }
    }
}

impl Clone for PathOperation {
    fn clone(&self) -> (copy: Self)
        ensures
            copy.deep_view() == self.deep_view(),
    {
        PathOperation {
            attempt_id: self.attempt_id,
            target: self.target.clone(),
            port: self.port,
            hop_limit: self.hop_limit,
            budget: self.budget,
        }
    }
}

#[derive(Clone, Copy, Debug, Eq, PartialEq, Structural)]
pub enum DirectDnsTransportReason {
    ConfiguredTransport,
    UdpTimeoutComparison,
    UdpTruncationCompletion,
}

impl DeepView for DirectDnsTransportReason {
    type V = DirectDnsTransportReason;

    open spec fn deep_view(&self) -> DirectDnsTransportReason {
        *self
    }
}

#[derive(Debug, Eq, PartialEq)]
pub struct DirectDnsOperation {
    pub attempt_id: AttemptId,
    pub message_id: u16,
    pub resolver: SocketAddr,
    pub query_name: String,
    pub query_type: DnsQueryType,
    pub budget: Duration,
    pub reason: DirectDnsTransportReason,
}

/// The contents of a [`DirectDnsOperation`].
#[verifier::ext_equal]
pub struct DirectDnsOperationView {
    pub attempt_id: AttemptId,
    pub message_id: u16,
    pub resolver: SocketAddr,
    pub query_name: Seq<char>,
    pub query_type: DnsQueryType,
    pub budget: Duration,
    pub reason: DirectDnsTransportReason,
}

impl DeepView for DirectDnsOperation {
    type V = DirectDnsOperationView;

    open spec fn deep_view(&self) -> DirectDnsOperationView {
        DirectDnsOperationView {
            attempt_id: self.attempt_id,
            message_id: self.message_id,
            resolver: self.resolver,
            query_name: self.query_name.deep_view(),
            query_type: self.query_type,
            budget: self.budget,
            reason: self.reason,
        }
    }
}

impl Clone for DirectDnsOperation {
    fn clone(&self) -> (copy: Self)
        ensures
            copy.deep_view() == self.deep_view(),
    {
        DirectDnsOperation {
            attempt_id: self.attempt_id,
            message_id: self.message_id,
            resolver: self.resolver,
            query_name: self.query_name.clone(),
            query_type: self.query_type,
            budget: self.budget,
            reason: self.reason,
        }
    }
}

} // verus!
