//! Facts that carry where they come from and whether they could be had at all.

use vstd::prelude::*;

use crate::text;
use crate::time::Duration;

verus! {

/// Where a fact was observed.
#[derive(Clone, Copy, Debug, Eq, Ord, PartialEq, PartialOrd, Structural)]
pub enum ProvenanceSource {
    CoreInputParser,
    SystemResolver,
    InterfaceSnapshot,
    RouteSnapshot,
    RoutingPolicySnapshot,
    ResolverConfigurationSnapshot,
    TargetedPathQuery,
    NeighborQuery,
    TcpSocket,
    IcmpApi,
    DirectDns,
    PlatformCapabilityProbe,
    SyntheticTest,
}

impl DeepView for ProvenanceSource {
    type V = ProvenanceSource;

    open spec fn deep_view(&self) -> ProvenanceSource {
        *self
    }
}

/// Origin and timing of a fact. No platform adapter may synthesize provenance
/// for data it did not actually observe.
#[derive(Debug, Eq, PartialEq)]
pub struct Provenance {
    pub source: ProvenanceSource,
    pub observed_at: Option<Duration>,
    pub detail: Option<String>,
}

/// The contents of a [`Provenance`].
#[verifier::ext_equal]
pub struct ProvenanceView {
    pub source: ProvenanceSource,
    pub observed_at: Option<Duration>,
    pub detail: Option<Seq<char>>,
}

impl DeepView for Provenance {
    type V = ProvenanceView;

    open spec fn deep_view(&self) -> ProvenanceView {
        ProvenanceView {
            source: self.source,
            observed_at: self.observed_at,
            detail: self.detail.deep_view(),
        }
    }
}

impl Clone for Provenance {
    fn clone(&self) -> (copy: Self)
        ensures
            copy.deep_view() == self.deep_view(),
    {
        Provenance {
            source: self.source,
            observed_at: self.observed_at,
            detail: self.detail.clone(),
        }
    }
}

impl Provenance {
    #[must_use]
    pub fn new(source: ProvenanceSource) -> (result: Provenance)
        ensures
            result.deep_view() == (ProvenanceView { source, observed_at: None, detail: None }),
    {
        Provenance { source, observed_at: None, detail: None }
    }

    #[must_use]
    pub fn at(self, elapsed_since_run_start: Duration) -> (result: Provenance)
        ensures
            result.deep_view() == (ProvenanceView {
                observed_at: Some(elapsed_since_run_start),
                ..self.deep_view()
            }),
    {
        Provenance {
            source: self.source,
            observed_at: Some(elapsed_since_run_start),
            detail: self.detail,
        }
    }

    #[must_use]
    pub fn with_detail(self, detail: &str) -> (result: Provenance)
        ensures
            result.deep_view() == (ProvenanceView { detail: Some(detail@), ..self.deep_view() }),
    {
        Provenance {
            source: self.source,
            observed_at: self.observed_at,
            detail: Some(detail.to_owned()),
        }
    }
}

/// Why a fact could not be had.
#[derive(Debug, Eq, PartialEq)]
pub enum CapabilityReason {
    NotExposedByOperatingSystem,
    OrdinaryUserPermissionDenied,
    SnapshotInconsistent,
    QuerySemanticsUnavailable,
    AttemptCorrelationUnavailable,
    UnsupportedEnvironment,
    Other(String),
}

/// The contents of a [`CapabilityReason`].
#[verifier::ext_equal]
pub enum CapabilityReasonView {
    NotExposedByOperatingSystem,
    OrdinaryUserPermissionDenied,
    SnapshotInconsistent,
    QuerySemanticsUnavailable,
    AttemptCorrelationUnavailable,
    UnsupportedEnvironment,
    Other(Seq<char>),
}

impl DeepView for CapabilityReason {
    type V = CapabilityReasonView;

    open spec fn deep_view(&self) -> CapabilityReasonView {
        match self {
            CapabilityReason::NotExposedByOperatingSystem => CapabilityReasonView::NotExposedByOperatingSystem,
            CapabilityReason::OrdinaryUserPermissionDenied => CapabilityReasonView::OrdinaryUserPermissionDenied,
            CapabilityReason::SnapshotInconsistent => CapabilityReasonView::SnapshotInconsistent,
            CapabilityReason::QuerySemanticsUnavailable => CapabilityReasonView::QuerySemanticsUnavailable,
            CapabilityReason::AttemptCorrelationUnavailable => CapabilityReasonView::AttemptCorrelationUnavailable,
            CapabilityReason::UnsupportedEnvironment => CapabilityReasonView::UnsupportedEnvironment,
            CapabilityReason::Other(value) => CapabilityReasonView::Other(value.deep_view()),
        }
    }
}

impl Clone for CapabilityReason {
    fn clone(&self) -> (copy: Self)
        ensures
            copy.deep_view() == self.deep_view(),
    {
        match self {
            CapabilityReason::NotExposedByOperatingSystem => CapabilityReason::NotExposedByOperatingSystem,
            CapabilityReason::OrdinaryUserPermissionDenied => CapabilityReason::OrdinaryUserPermissionDenied,
            CapabilityReason::SnapshotInconsistent => CapabilityReason::SnapshotInconsistent,
            CapabilityReason::QuerySemanticsUnavailable => CapabilityReason::QuerySemanticsUnavailable,
            CapabilityReason::AttemptCorrelationUnavailable => CapabilityReason::AttemptCorrelationUnavailable,
            CapabilityReason::UnsupportedEnvironment => CapabilityReason::UnsupportedEnvironment,
            CapabilityReason::Other(value) => CapabilityReason::Other(value.clone()),
        }
    }
}

impl CapabilityReasonView {
    /// The name of the reason, with its text in quotes where it has one.
    pub open spec fn debug(self) -> Seq<char> {
        match self {
            CapabilityReasonView::NotExposedByOperatingSystem => "NotExposedByOperatingSystem"@,
            CapabilityReasonView::OrdinaryUserPermissionDenied => "OrdinaryUserPermissionDenied"@,
            CapabilityReasonView::SnapshotInconsistent => "SnapshotInconsistent"@,
            CapabilityReasonView::QuerySemanticsUnavailable => "QuerySemanticsUnavailable"@,
            CapabilityReasonView::AttemptCorrelationUnavailable => "AttemptCorrelationUnavailable"@,
            CapabilityReasonView::UnsupportedEnvironment => "UnsupportedEnvironment"@,
            CapabilityReasonView::Other(text) => "Other("@ + text::quoted(text) + ")"@,
        }
    }
}

impl CapabilityReason {
    /// Names the reason, with its text in quotes where it has one.
    pub fn debug_text(&self) -> (result: String)
        ensures
            result@ == self.deep_view().debug(),
    {
        match self {
            CapabilityReason::NotExposedByOperatingSystem => {
                "NotExposedByOperatingSystem".to_owned()
            },
            CapabilityReason::OrdinaryUserPermissionDenied => {
                "OrdinaryUserPermissionDenied".to_owned()
            },
            CapabilityReason::SnapshotInconsistent => "SnapshotInconsistent".to_owned(),
            CapabilityReason::QuerySemanticsUnavailable => "QuerySemanticsUnavailable".to_owned(),
            CapabilityReason::AttemptCorrelationUnavailable => {
                "AttemptCorrelationUnavailable".to_owned()
            },
            CapabilityReason::UnsupportedEnvironment => "UnsupportedEnvironment".to_owned(),
            CapabilityReason::Other(other) => {
                let inner = text::quote(other.as_str());
                text::join3("Other(", inner.as_str(), ")")
            },
        }
    }
}

/// A capability-bearing fact is never represented by an absent `Option`.
/// Unknown and unavailable are different, provenance-carrying states.
#[derive(Debug, Eq, PartialEq)]
pub enum CapabilityValue<T> {
    Available { value: T, provenance: Provenance },
    Unknown { reason: CapabilityReason, provenance: Provenance },
    Unavailable { reason: CapabilityReason, provenance: Provenance },
}

/// The contents of a [`CapabilityValue`].
#[verifier::ext_equal]
pub enum CapabilityValueView<V> {
    Available { value: V, provenance: ProvenanceView },
    Unknown { reason: CapabilityReasonView, provenance: ProvenanceView },
    Unavailable { reason: CapabilityReasonView, provenance: ProvenanceView },
}

impl<V> CapabilityValueView<V> {
    /// The fact, where it could be had.
    pub open spec fn known(self) -> Option<V> {
        match self {
            CapabilityValueView::Available { value, .. } => Some(value),
            _ => None,
        }
    }

    /// Why the fact could not be had, where it could not.
    pub open spec fn missing(self) -> Option<CapabilityReasonView> {
        match self {
            CapabilityValueView::Available { .. } => None,
            CapabilityValueView::Unknown { reason, .. } => Some(reason),
            CapabilityValueView::Unavailable { reason, .. } => Some(reason),
        }
    }
}

impl<T: DeepView> DeepView for CapabilityValue<T> {
    type V = CapabilityValueView<T::V>;

    open spec fn deep_view(&self) -> CapabilityValueView<T::V> {
        match self {
            CapabilityValue::Available { value, provenance } => CapabilityValueView::Available {
                value: value.deep_view(),
                provenance: provenance.deep_view(),
            },
            CapabilityValue::Unknown { reason, provenance } => CapabilityValueView::Unknown {
                reason: reason.deep_view(),
                provenance: provenance.deep_view(),
            },
            CapabilityValue::Unavailable { reason, provenance } => {
                CapabilityValueView::Unavailable {
                    reason: reason.deep_view(),
                    provenance: provenance.deep_view(),
                }
            },
        }
    }
}

/// Whether one capability value is a copy of another: the facts are related as `clone` relates
/// them, and everything around them is the same.
pub open spec fn capability_cloned<T>(original: CapabilityValue<T>, copy: CapabilityValue<T>) -> bool
    where T: Clone
{
    match (original, copy) {
        (
            CapabilityValue::Available { value, provenance },
            CapabilityValue::Available { value: other, provenance: origin },
        ) => cloned::<T>(value, other) && provenance.deep_view() == origin.deep_view(),
        (
            CapabilityValue::Unknown { reason, provenance },
            CapabilityValue::Unknown { reason: cause, provenance: origin },
        ) => reason.deep_view() == cause.deep_view() && provenance.deep_view()
            == origin.deep_view(),
        (
            CapabilityValue::Unavailable { reason, provenance },
            CapabilityValue::Unavailable { reason: cause, provenance: origin },
        ) => reason.deep_view() == cause.deep_view() && provenance.deep_view()
            == origin.deep_view(),
        _ => false,
    }
}

impl<T: Clone> Clone for CapabilityValue<T> {
    fn clone(&self) -> (copy: Self)
        ensures
            capability_cloned(*self, copy),
    {
        match self {
            CapabilityValue::Available { value, provenance } => CapabilityValue::Available {
                value: value.clone(),
                provenance: provenance.clone(),
            },
            CapabilityValue::Unknown { reason, provenance } => CapabilityValue::Unknown {
                reason: reason.clone(),
                provenance: provenance.clone(),
            },
            CapabilityValue::Unavailable { reason, provenance } => CapabilityValue::Unavailable {
                reason: reason.clone(),
                provenance: provenance.clone(),
            },
        }
    }
}

impl<T> CapabilityValue<T> {
    #[must_use]
    pub fn available(value: T, provenance: Provenance) -> (result: Self)
        ensures
            result == (CapabilityValue::Available { value, provenance }),
    {
        CapabilityValue::Available { value, provenance }
    }

    #[must_use]
    pub fn unknown(reason: CapabilityReason, provenance: Provenance) -> (result: Self)
        ensures
            result == (CapabilityValue::<T>::Unknown { reason, provenance }),
    {
        CapabilityValue::Unknown { reason, provenance }
    }

    #[must_use]
    pub fn unavailable(reason: CapabilityReason, provenance: Provenance) -> (result: Self)
        ensures
            result == (CapabilityValue::<T>::Unavailable { reason, provenance }),
    {
        CapabilityValue::Unavailable { reason, provenance }
    }

    #[must_use]
    pub fn is_available(&self) -> (result: bool)
        ensures
            result == (self is Available),
    {
        match self {
            CapabilityValue::Available { .. } => true,
            _ => false,
        }
    }

    #[must_use]
    pub fn provenance(&self) -> (result: &Provenance)
        ensures
            *result == (match *self {
                CapabilityValue::Available { provenance, .. } => provenance,
                CapabilityValue::Unknown { provenance, .. } => provenance,
                CapabilityValue::Unavailable { provenance, .. } => provenance,
            }),
    {
        match self {
            CapabilityValue::Available { provenance, .. } => provenance,
            CapabilityValue::Unknown { provenance, .. } => provenance,
            CapabilityValue::Unavailable { provenance, .. } => provenance,
        }
    }

    #[must_use]
    pub fn as_ref(&self) -> (result: CapabilityValue<&T>)
        ensures
            match *self {
                CapabilityValue::Available { value, provenance } => {
                    result matches CapabilityValue::Available { value: held, provenance: origin }
                        && *held == value && origin.deep_view() == provenance.deep_view()
                },
                CapabilityValue::Unknown { reason, provenance } => {
                    result matches CapabilityValue::Unknown { reason: cause, provenance: origin }
                        && cause.deep_view() == reason.deep_view() && origin.deep_view()
                        == provenance.deep_view()
                },
                CapabilityValue::Unavailable { reason, provenance } => {
                    result matches CapabilityValue::Unavailable { reason: cause, provenance: origin }
                        && cause.deep_view() == reason.deep_view() && origin.deep_view()
                        == provenance.deep_view()
                },
            },
    {
        match self {
            CapabilityValue::Available { value, provenance } => CapabilityValue::Available {
                value,
                provenance: provenance.clone(),
            },
            CapabilityValue::Unknown { reason, provenance } => CapabilityValue::Unknown {
                reason: reason.clone(),
                provenance: provenance.clone(),
            },
            CapabilityValue::Unavailable { reason, provenance } => CapabilityValue::Unavailable {
                reason: reason.clone(),
                provenance: provenance.clone(),
            },
        }
    }
}

} // verus!
