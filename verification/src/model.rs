//! What is observed of the network: targets, interfaces, routes, resolvers, neighbors and
//! attempts.

use vstd::prelude::*;

use crate::capability::{CapabilityValue, CapabilityValueView, Provenance, ProvenanceView};
use crate::net::{IpAddr, IpNet, Ipv4Addr, Ipv6Addr, SocketAddr};
use crate::text;
use crate::time::Duration;

verus! {

#[derive(Clone, Copy, Debug, Eq, Hash, Ord, PartialEq, PartialOrd, Structural)]
pub enum AddressFamily {
    Ipv4,
    Ipv6,
}

impl DeepView for AddressFamily {
    type V = AddressFamily;

    open spec fn deep_view(&self) -> AddressFamily {
        *self
    }
}

impl From<IpAddr> for AddressFamily {
    fn from(value: IpAddr) -> (result: Self) {
        match value {
            IpAddr::V4(_) => AddressFamily::Ipv4,
            IpAddr::V6(_) => AddressFamily::Ipv6,
        }
    }
}

impl vstd::std_specs::convert::FromSpecImpl<IpAddr> for AddressFamily {
    open spec fn obeys_from_spec() -> bool {
        true
    }

    open spec fn from_spec(value: IpAddr) -> Self {
        family_of(value)
    }
}

/// The family that an address belongs to.
pub open spec fn family_of(address: IpAddr) -> AddressFamily {
    match address {
        IpAddr::V4(_) => AddressFamily::Ipv4,
        IpAddr::V6(_) => AddressFamily::Ipv6,
    }
}

/// The identity of a network interface.
#[derive(Debug, Eq, Hash, Ord, PartialEq, PartialOrd)]
pub struct InterfaceId {
    pub index: u32,
    /// A platform stable identity when the numeric index alone is not enough
    /// to detect replacement during a diagnostic run.
    pub stable_id: Option<String>,
}

/// The contents of a [`InterfaceId`].
#[verifier::ext_equal]
pub struct InterfaceIdView {
    pub index: u32,
    pub stable_id: Option<Seq<char>>,
}

impl DeepView for InterfaceId {
    type V = InterfaceIdView;

    open spec fn deep_view(&self) -> InterfaceIdView {
        InterfaceIdView {
            index: self.index,
            stable_id: self.stable_id.deep_view(),
        }
    }
}

impl Clone for InterfaceId {
    fn clone(&self) -> (copy: Self)
        ensures
            copy.deep_view() == self.deep_view(),
    {
        InterfaceId {
            index: self.index,
            stable_id: self.stable_id.clone(),
        }
    }
}

impl InterfaceId {
    #[must_use]
    pub fn from_index(index: u32) -> (result: InterfaceId)
        ensures
            result.deep_view() == (InterfaceIdView { index, stable_id: None }),
    {
        InterfaceId { index, stable_id: None }
    }

    /// Whether two identities are the same in every part.
    pub fn same(&self, other: &InterfaceId) -> (result: bool)
        ensures
            result == (self.deep_view() == other.deep_view()),
    {
        self.index == other.index && text::same_optional_text(&self.stable_id, &other.stable_id)
    }
}

/// Whether two optional identities are the same in every part.
pub fn same_optional_interface(
    left: &Option<InterfaceId>,
    right: &Option<InterfaceId>,
) -> (result: bool)
    ensures
        result == (left.deep_view() == right.deep_view()),
{
    match (left, right) {
        (Some(left), Some(right)) => left.same(right),
        (None, None) => true,
        _ => false,
    }
}

/// An address that a check can be aimed at.
#[derive(Debug, Eq, Hash, PartialEq)]
pub struct TargetIp {
    pub address: IpAddr,
    pub scope: Option<InterfaceId>,
}

/// The contents of a [`TargetIp`].
#[verifier::ext_equal]
pub struct TargetIpView {
    pub address: IpAddr,
    pub scope: Option<InterfaceIdView>,
}

impl DeepView for TargetIp {
    type V = TargetIpView;

    open spec fn deep_view(&self) -> TargetIpView {
        TargetIpView {
            address: self.address,
            scope: self.scope.deep_view(),
        }
    }
}

impl Clone for TargetIp {
    fn clone(&self) -> (copy: Self)
        ensures
            copy.deep_view() == self.deep_view(),
    {
        TargetIp {
            address: self.address,
            scope: self.scope.clone(),
        }
    }
}

impl TargetIp {
    #[must_use]
    pub fn v4(address: Ipv4Addr) -> (result: TargetIp)
        ensures
            result.deep_view() == (TargetIpView { address: IpAddr::V4(address), scope: None }),
    {
        TargetIp { address: IpAddr::V4(address), scope: None }
    }

    #[must_use]
    pub fn v6(address: Ipv6Addr, scope: Option<InterfaceId>) -> (result: TargetIp)
        ensures
            result.deep_view() == (TargetIpView {
                address: IpAddr::V6(address),
                scope: scope.deep_view(),
            }),
    {
        TargetIp { address: IpAddr::V6(address), scope }
    }

    #[must_use]
    pub fn family(&self) -> (result: AddressFamily)
        ensures
            result == family_of(self.address),
    {
        AddressFamily::from(self.address)
    }

    /// Whether two targets are the same address in the same scope.
    pub fn same(&self, other: &TargetIp) -> (result: bool)
        ensures
            result == (self.deep_view() == other.deep_view()),
    {
        self.address == other.address && same_optional_interface(&self.scope, &other.scope)
    }
}

/// A target that is part of the primary check, with its place among the resolver's answers.
#[derive(Debug, Eq, PartialEq)]
pub struct FormalTarget {
    pub target: TargetIp,
    pub resolver_ordinal: Option<usize>,
}

/// The contents of a [`FormalTarget`].
#[verifier::ext_equal]
pub struct FormalTargetView {
    pub target: TargetIpView,
    pub resolver_ordinal: Option<usize>,
}

impl DeepView for FormalTarget {
    type V = FormalTargetView;

    open spec fn deep_view(&self) -> FormalTargetView {
        FormalTargetView {
            target: self.target.deep_view(),
            resolver_ordinal: self.resolver_ordinal,
        }
    }
}

impl Clone for FormalTarget {
    fn clone(&self) -> (copy: Self)
        ensures
            copy.deep_view() == self.deep_view(),
    {
        FormalTarget {
            target: self.target.clone(),
            resolver_ordinal: self.resolver_ordinal,
        }
    }
}

#[derive(Debug, Eq, PartialEq)]
pub struct ResolverAddressSet {
    /// Exact addresses returned by the system resolver, including duplicates.
    pub raw_addresses: Vec<TargetIp>,
    /// Stable-deduplicated targets; the first occurrence defines the order.
    pub formal_targets: Vec<FormalTarget>,
}

/// The contents of a [`ResolverAddressSet`].
#[verifier::ext_equal]
pub struct ResolverAddressSetView {
    pub raw_addresses: Seq<TargetIpView>,
    pub formal_targets: Seq<FormalTargetView>,
}

impl DeepView for ResolverAddressSet {
    type V = ResolverAddressSetView;

    open spec fn deep_view(&self) -> ResolverAddressSetView {
        ResolverAddressSetView {
            raw_addresses: self.raw_addresses.deep_view(),
            formal_targets: self.formal_targets.deep_view(),
        }
    }
}

impl Clone for ResolverAddressSet {
    fn clone(&self) -> (copy: Self)
        ensures
            copy.deep_view() == self.deep_view(),
    {
        let copy = ResolverAddressSet {
            raw_addresses: self.raw_addresses.clone(),
            formal_targets: self.formal_targets.clone(),
        };
        assert(copy.raw_addresses.deep_view() =~= self.raw_addresses.deep_view());
        assert(copy.formal_targets.deep_view() =~= self.formal_targets.deep_view());
        copy
    }
}

/// The targets of a list without those that occurred earlier, each with its place.
pub open spec fn deduplicated(raw: Seq<TargetIpView>) -> Seq<FormalTargetView>
    decreases raw.len(),
{
    if raw.len() == 0 {
        Seq::empty()
    } else {
        let before = deduplicated(raw.drop_last());
        if raw.drop_last().contains(raw.last()) {
            before
        } else {
            before.push(
                FormalTargetView {
                    target: raw.last(),
                    resolver_ordinal: Some((raw.len() - 1) as usize),
                },
            )
        }
    }
}

/// The targets themselves, in order.
pub open spec fn targets_of(formal: Seq<FormalTargetView>) -> Seq<TargetIpView> {
    Seq::new(formal.len(), |i: int| formal[i].target)
}

/// Deduplication keeps exactly the first occurrence of every target, in the order of the list:
/// each ordinal is the first place of its target, ordinals grow, and nothing is lost.
pub proof fn deduplication_keeps_first_occurrences(raw: Seq<TargetIpView>)
    requires
        raw.len() <= usize::MAX,
    ensures
        forall|i: int|
            #![trigger deduplicated(raw)[i]]
            0 <= i < deduplicated(raw).len() ==> {
                let item = deduplicated(raw)[i];
                &&& item.resolver_ordinal is Some
                &&& item.resolver_ordinal->Some_0 < raw.len()
                &&& raw[item.resolver_ordinal->Some_0 as int] == item.target
                &&& !raw.take(item.resolver_ordinal->Some_0 as int).contains(item.target)
            },
        forall|i: int, j: int|
            #![trigger deduplicated(raw)[i], deduplicated(raw)[j]]
            0 <= i < j < deduplicated(raw).len() ==> {
                &&& deduplicated(raw)[i].resolver_ordinal->Some_0 < deduplicated(
                    raw,
                )[j].resolver_ordinal->Some_0
                &&& deduplicated(raw)[i].target != deduplicated(raw)[j].target
            },
        forall|target: TargetIpView|
            #![trigger targets_of(deduplicated(raw)).contains(target)]
            raw.contains(target) <==> targets_of(deduplicated(raw)).contains(target),
    decreases raw.len(),
{
    if raw.len() > 0 {
        let rest = raw.drop_last();
        let before = deduplicated(rest);
        deduplication_keeps_first_occurrences(rest);
        assert forall|i: int| 0 <= i < before.len() implies {
            let item = #[trigger] before[i];
            &&& raw[item.resolver_ordinal->Some_0 as int] == item.target
            &&& !raw.take(item.resolver_ordinal->Some_0 as int).contains(item.target)
        } by {
            let place = before[i].resolver_ordinal->Some_0 as int;
            assert(raw.take(place) =~= rest.take(place));
        }
        assert forall|target: TargetIpView|
            raw.contains(target) <==> #[trigger] targets_of(deduplicated(raw)).contains(
                target,
            ) by {
            assert(raw.contains(target) <==> rest.contains(target) || raw.last() == target) by {
                if rest.contains(target) {
                    let k = choose|k: int| 0 <= k < rest.len() && rest[k] == target;
                    assert(raw[k] == target);
                }
                if raw.contains(target) && raw.last() != target {
                    let k = choose|k: int| 0 <= k < raw.len() && raw[k] == target;
                    assert(rest[k] == target);
                }
            }
            assert(targets_of(before).contains(target) <==> rest.contains(target));
            if !rest.contains(raw.last()) {
                let now = targets_of(deduplicated(raw));
                assert(now =~= targets_of(before).push(raw.last()));
                if targets_of(before).contains(target) {
                    let k = choose|k: int|
                        0 <= k < targets_of(before).len() && targets_of(before)[k] == target;
                    assert(now[k] == target);
                }
                assert(now[now.len() - 1] == raw.last());
            }
        }
        if !rest.contains(raw.last()) {
            assert(raw.take(raw.len() - 1) =~= rest);
            assert forall|i: int| 0 <= i < before.len() implies #[trigger] before[i].target
                != raw.last() by {
                assert(targets_of(before)[i] == before[i].target);
                assert(targets_of(before).contains(before[i].target));
            }
        }
    } else {
        assert forall|target: TargetIpView|
            !#[trigger] targets_of(deduplicated(raw)).contains(target) by {}
    }
}

/// Deduplicating the kept targets once more keeps them all.
pub proof fn deduplication_is_idempotent(raw: Seq<TargetIpView>)
    requires
        raw.len() <= usize::MAX,
    ensures
        targets_of(deduplicated(targets_of(deduplicated(raw)))) == targets_of(deduplicated(raw)),
{
    deduplication_keeps_first_occurrences(raw);
    lemma_distinct_targets_stay(targets_of(deduplicated(raw)));
}

proof fn lemma_distinct_targets_stay(distinct: Seq<TargetIpView>)
    requires
        forall|i: int, j: int|
            #![trigger distinct[i], distinct[j]]
            0 <= i < j < distinct.len() ==> distinct[i] != distinct[j],
    ensures
        targets_of(deduplicated(distinct)) == distinct,
    decreases distinct.len(),
{
    if distinct.len() > 0 {
        let rest = distinct.drop_last();
        lemma_distinct_targets_stay(rest);
        assert(!rest.contains(distinct.last()));
        assert(targets_of(deduplicated(distinct)) =~= targets_of(deduplicated(rest)).push(
            distinct.last(),
        ));
    }
    assert(targets_of(deduplicated(distinct)) =~= distinct);
}

#[must_use]
pub fn stable_deduplicate_targets(raw: &[TargetIp]) -> (result: Vec<FormalTarget>)
    ensures
        result.deep_view() == deduplicated(raw.deep_view()),
{
    let mut targets: Vec<FormalTarget> = Vec::new();
    let ghost all = raw.deep_view();
    let mut ordinal: usize = 0;
    while ordinal < raw.len()
        invariant
            ordinal <= raw.len(),
            all == raw.deep_view(),
            targets.deep_view() == deduplicated(all.take(ordinal as int)),
        decreases raw.len() - ordinal,
    {
        let target = &raw[ordinal];
        let ghost before = all.take(ordinal as int);
        assert(all.take(ordinal + 1).drop_last() =~= before);
        assert(all.take(ordinal + 1).last() == target.deep_view());
        proof {
            deduplication_keeps_first_occurrences(before);
        }
        let seen = holds_target(&targets, target);
        if !seen {
            targets.push(
                FormalTarget { target: target.clone(), resolver_ordinal: Some(ordinal) },
            );
        }
        assert(targets.deep_view() =~= deduplicated(all.take(ordinal + 1)));
        ordinal += 1;
    }
    assert(all.take(ordinal as int) =~= all);
    targets
}

fn holds_target(targets: &Vec<FormalTarget>, target: &TargetIp) -> (result: bool)
    ensures
        result == targets_of(targets.deep_view()).contains(target.deep_view()),
{
    let ghost known = targets_of(targets.deep_view());
    let mut i: usize = 0;
    while i < targets.len()
        invariant
            i <= targets.len(),
            known == targets_of(targets.deep_view()),
            forall|j: int| 0 <= j < i ==> known[j] != target.deep_view(),
        decreases targets.len() - i,
    {
        assert(known[i as int] == targets@[i as int].target.deep_view());
        if targets[i].target.same(target) {
            return true;
        }
        i += 1;
    }
    false
}

impl ResolverAddressSet {
    #[must_use]
    pub fn from_raw(raw_addresses: Vec<TargetIp>) -> (result: ResolverAddressSet)
        ensures
            result.deep_view() == (ResolverAddressSetView {
                raw_addresses: raw_addresses.deep_view(),
                formal_targets: deduplicated(raw_addresses.deep_view()),
            }),
    {
        let formal_targets = stable_deduplicate_targets(raw_addresses.as_slice());
        ResolverAddressSet { raw_addresses, formal_targets }
    }
}

#[derive(Clone, Copy, Debug, Eq, PartialEq, Structural)]
pub enum SystemResolverFailureKind {
    DefinitiveNoName,
    NoUsableAddress,
    Temporary,
    Timeout,
    ResolverFailure,
    OtherPlatformFailure,
    Unknown,
}

impl DeepView for SystemResolverFailureKind {
    type V = SystemResolverFailureKind;

    open spec fn deep_view(&self) -> SystemResolverFailureKind {
        *self
    }
}

#[derive(Debug, Eq, PartialEq)]
pub struct SystemResolverFailure {
    pub kind: SystemResolverFailureKind,
    pub platform_code: Option<i32>,
    pub platform_message: String,
}

/// The contents of a [`SystemResolverFailure`].
#[verifier::ext_equal]
pub struct SystemResolverFailureView {
    pub kind: SystemResolverFailureKind,
    pub platform_code: Option<i32>,
    pub platform_message: Seq<char>,
}

impl DeepView for SystemResolverFailure {
    type V = SystemResolverFailureView;

    open spec fn deep_view(&self) -> SystemResolverFailureView {
        SystemResolverFailureView {
            kind: self.kind,
            platform_code: self.platform_code,
            platform_message: self.platform_message.deep_view(),
        }
    }
}

impl Clone for SystemResolverFailure {
    fn clone(&self) -> (copy: Self)
        ensures
            copy.deep_view() == self.deep_view(),
    {
        SystemResolverFailure {
            kind: self.kind,
            platform_code: self.platform_code,
            platform_message: self.platform_message.clone(),
        }
    }
}

#[derive(Debug, Eq, PartialEq)]
pub enum SystemResolverResult {
    Succeeded(ResolverAddressSet),
    Failed(SystemResolverFailure),
}

/// The contents of a [`SystemResolverResult`].
#[verifier::ext_equal]
pub enum SystemResolverResultView {
    Succeeded(ResolverAddressSetView),
    Failed(SystemResolverFailureView),
}

impl DeepView for SystemResolverResult {
    type V = SystemResolverResultView;

    open spec fn deep_view(&self) -> SystemResolverResultView {
        match self {
            SystemResolverResult::Succeeded(value) => SystemResolverResultView::Succeeded(value.deep_view()),
            SystemResolverResult::Failed(value) => SystemResolverResultView::Failed(value.deep_view()),
        }
    }
}

impl Clone for SystemResolverResult {
    fn clone(&self) -> (copy: Self)
        ensures
            copy.deep_view() == self.deep_view(),
    {
        match self {
            SystemResolverResult::Succeeded(value) => SystemResolverResult::Succeeded(value.clone()),
            SystemResolverResult::Failed(value) => SystemResolverResult::Failed(value.clone()),
        }
    }
}

/// Who answered a step of name resolution.
#[derive(Clone, Copy, Debug, Eq, PartialEq, Structural)]
pub enum NameResolutionSource {
    Hosts,
    Dns,
    SystemResolverOpaque,
    OtherPlatformSource,
    Unknown,
}

impl DeepView for NameResolutionSource {
    type V = NameResolutionSource;

    open spec fn deep_view(&self) -> NameResolutionSource {
        *self
    }
}

#[derive(Clone, Copy, Debug, Eq, PartialEq, Structural)]
pub enum NameResolutionStepOutcome {
    Found,
    NotFound,
    Failed,
    Unknown,
}

impl DeepView for NameResolutionStepOutcome {
    type V = NameResolutionStepOutcome;

    open spec fn deep_view(&self) -> NameResolutionStepOutcome {
        *self
    }
}

/// Whether an exchange served the formal resolution or only failure diagnosis.
#[derive(Clone, Copy, Debug, Eq, PartialEq, Structural)]
pub enum DnsExchangePurpose {
    FormalResolution,
    FailureDiagnosis,
}

impl DeepView for DnsExchangePurpose {
    type V = DnsExchangePurpose;

    open spec fn deep_view(&self) -> DnsExchangePurpose {
        *self
    }
}

#[derive(Clone, Copy, Debug, Eq, PartialEq, Structural)]
pub enum DnsExchangeTransport {
    Udp,
    Tcp,
}

impl DeepView for DnsExchangeTransport {
    type V = DnsExchangeTransport;

    open spec fn deep_view(&self) -> DnsExchangeTransport {
        *self
    }
}

#[derive(Clone, Copy, Debug, Eq, PartialEq, Structural)]
pub enum DnsQueryType {
    A,
    Aaaa,
}

impl DeepView for DnsQueryType {
    type V = DnsQueryType;

    open spec fn deep_view(&self) -> DnsQueryType {
        *self
    }
}

/// A DNS response code.
#[derive(Clone, Copy, Debug, Eq, PartialEq, Structural)]
pub enum DnsResponseCode {
    NoError,
    FormErr,
    ServFail,
    NxDomain,
    NotImp,
    Refused,
    Other(u16),
}

impl DeepView for DnsResponseCode {
    type V = DnsResponseCode;

    open spec fn deep_view(&self) -> DnsResponseCode {
        *self
    }
}

/// The response code that a number on the wire stands for.
pub open spec fn response_code_of(number: u16) -> DnsResponseCode {
    if number == 0 {
        DnsResponseCode::NoError
    } else if number == 1 {
        DnsResponseCode::FormErr
    } else if number == 2 {
        DnsResponseCode::ServFail
    } else if number == 3 {
        DnsResponseCode::NxDomain
    } else if number == 4 {
        DnsResponseCode::NotImp
    } else if number == 5 {
        DnsResponseCode::Refused
    } else {
        DnsResponseCode::Other(number)
    }
}

/// The number on the wire of a response code.
pub open spec fn response_code_number(code: DnsResponseCode) -> u16 {
    match code {
        DnsResponseCode::NoError => 0,
        DnsResponseCode::FormErr => 1,
        DnsResponseCode::ServFail => 2,
        DnsResponseCode::NxDomain => 3,
        DnsResponseCode::NotImp => 4,
        DnsResponseCode::Refused => 5,
        DnsResponseCode::Other(number) => number,
    }
}

/// A response code has the number that it was read from.
pub proof fn response_code_round_trip(number: u16)
    ensures
        response_code_number(response_code_of(number)) == number,
{
}

impl From<u16> for DnsResponseCode {
    fn from(number: u16) -> (result: Self) {
        match number {
            0 => DnsResponseCode::NoError,
            1 => DnsResponseCode::FormErr,
            2 => DnsResponseCode::ServFail,
            3 => DnsResponseCode::NxDomain,
            4 => DnsResponseCode::NotImp,
            5 => DnsResponseCode::Refused,
            _ => DnsResponseCode::Other(number),
        }
    }
}

impl vstd::std_specs::convert::FromSpecImpl<u16> for DnsResponseCode {
    open spec fn obeys_from_spec() -> bool {
        true
    }

    open spec fn from_spec(number: u16) -> Self {
        response_code_of(number)
    }
}

impl DnsResponseCode {
    /// The number of this code on the wire.
    pub fn number(self) -> (result: u16)
        ensures
            result == response_code_number(self),
    {
        match self {
            DnsResponseCode::NoError => 0,
            DnsResponseCode::FormErr => 1,
            DnsResponseCode::ServFail => 2,
            DnsResponseCode::NxDomain => 3,
            DnsResponseCode::NotImp => 4,
            DnsResponseCode::Refused => 5,
            DnsResponseCode::Other(number) => number,
        }
    }
}

/// When an attempt started, when its budget ended and when it completed.
#[derive(Clone, Copy, Debug, Eq, PartialEq, Structural)]
pub struct AttemptTiming {
    pub started_at: Duration,
    pub deadline_at: Duration,
    pub completed_at: Duration,
}

impl DeepView for AttemptTiming {
    type V = AttemptTiming;

    open spec fn deep_view(&self) -> AttemptTiming {
        *self
    }
}

impl AttemptTiming {
    #[must_use]
    pub fn duration(self) -> (result: Duration)
        ensures
            result == self.completed_at.less(self.started_at),
            result.span() == (if self.completed_at.span() >= self.started_at.span() {
                self.completed_at.span() - self.started_at.span()
            } else {
                0
            }),
    {
        self.completed_at.saturating_sub(self.started_at)
    }

    #[must_use]
    pub fn completed_within_deadline(self) -> (result: bool)
        ensures
            result == (self.completed_at.span() < self.deadline_at.span()),
    {
        self.completed_at.is_before(self.deadline_at)
    }
}

#[derive(Clone, Copy, Debug, Eq, PartialEq, Structural)]
pub struct IpEndpoint {
    pub address: IpAddr,
    pub port: u16,
    pub scope_id: Option<u32>,
}

impl DeepView for IpEndpoint {
    type V = IpEndpoint;

    open spec fn deep_view(&self) -> IpEndpoint {
        *self
    }
}

#[derive(Debug, Eq, PartialEq)]
pub enum DnsExchangeOutcome {
    Response {
        response_code: DnsResponseCode,
        addresses: Vec<IpAddr>,
        aliases: Vec<String>,
        truncated: bool,
    },
    TransportError { os_code: Option<i32> },
    ProtocolError,
    Timeout,
}

/// The contents of a [`DnsExchangeOutcome`].
#[verifier::ext_equal]
pub enum DnsExchangeOutcomeView {
    Response {
        response_code: DnsResponseCode,
        addresses: Seq<IpAddr>,
        aliases: Seq<Seq<char>>,
        truncated: bool,
    },
    TransportError { os_code: Option<i32> },
    ProtocolError,
    Timeout,
}

impl DeepView for DnsExchangeOutcome {
    type V = DnsExchangeOutcomeView;

    open spec fn deep_view(&self) -> DnsExchangeOutcomeView {
        match self {
            DnsExchangeOutcome::Response { response_code, addresses, aliases, truncated } => DnsExchangeOutcomeView::Response {
                response_code: *response_code,
                addresses: addresses.deep_view(),
                aliases: aliases.deep_view(),
                truncated: *truncated,
            },
            DnsExchangeOutcome::TransportError { os_code } => DnsExchangeOutcomeView::TransportError {
                os_code: *os_code,
            },
            DnsExchangeOutcome::ProtocolError => DnsExchangeOutcomeView::ProtocolError,
            DnsExchangeOutcome::Timeout => DnsExchangeOutcomeView::Timeout,
        }
    }
}

impl Clone for DnsExchangeOutcome {
    fn clone(&self) -> (copy: Self)
        ensures
            copy.deep_view() == self.deep_view(),
    {
        match self {
            DnsExchangeOutcome::Response { response_code, addresses, aliases, truncated } => {
                let addresses_copy = addresses.clone();
                assert(addresses_copy.deep_view() =~= addresses.deep_view());
                let aliases_copy = aliases.clone();
                assert(aliases_copy.deep_view() =~= aliases.deep_view());
                DnsExchangeOutcome::Response {
                    response_code: *response_code,
                    addresses: addresses_copy,
                    aliases: aliases_copy,
                    truncated: *truncated,
                }
            },
            DnsExchangeOutcome::TransportError { os_code } => DnsExchangeOutcome::TransportError {
                os_code: *os_code,
            },
            DnsExchangeOutcome::ProtocolError => DnsExchangeOutcome::ProtocolError,
            DnsExchangeOutcome::Timeout => DnsExchangeOutcome::Timeout,
        }
    }
}

/// One question to a DNS server and what came of it.
#[derive(Debug, Eq, PartialEq)]
pub struct DnsExchangeObservation {
    pub purpose: DnsExchangePurpose,
    pub endpoint: IpEndpoint,
    pub transport: DnsExchangeTransport,
    pub query_name: String,
    pub query_type: DnsQueryType,
    pub outcome: DnsExchangeOutcome,
    pub timing: AttemptTiming,
    pub provenance: Provenance,
}

/// The contents of a [`DnsExchangeObservation`].
#[verifier::ext_equal]
pub struct DnsExchangeObservationView {
    pub purpose: DnsExchangePurpose,
    pub endpoint: IpEndpoint,
    pub transport: DnsExchangeTransport,
    pub query_name: Seq<char>,
    pub query_type: DnsQueryType,
    pub outcome: DnsExchangeOutcomeView,
    pub timing: AttemptTiming,
    pub provenance: ProvenanceView,
}

impl DeepView for DnsExchangeObservation {
    type V = DnsExchangeObservationView;

    open spec fn deep_view(&self) -> DnsExchangeObservationView {
        DnsExchangeObservationView {
            purpose: self.purpose,
            endpoint: self.endpoint,
            transport: self.transport,
            query_name: self.query_name.deep_view(),
            query_type: self.query_type,
            outcome: self.outcome.deep_view(),
            timing: self.timing,
            provenance: self.provenance.deep_view(),
        }
    }
}

impl Clone for DnsExchangeObservation {
    fn clone(&self) -> (copy: Self)
        ensures
            copy.deep_view() == self.deep_view(),
    {
        DnsExchangeObservation {
            purpose: self.purpose,
            endpoint: self.endpoint,
            transport: self.transport,
            query_name: self.query_name.clone(),
            query_type: self.query_type,
            outcome: self.outcome.clone(),
            timing: self.timing,
            provenance: self.provenance.clone(),
        }
    }
}

#[derive(Debug, Eq, PartialEq)]
pub struct NameResolutionStep {
    pub source: NameResolutionSource,
    pub query_names: Vec<String>,
    pub dns_exchanges: Vec<DnsExchangeObservation>,
    pub outcome: NameResolutionStepOutcome,
    pub provenance: Provenance,
}

/// The contents of a [`NameResolutionStep`].
#[verifier::ext_equal]
pub struct NameResolutionStepView {
    pub source: NameResolutionSource,
    pub query_names: Seq<Seq<char>>,
    pub dns_exchanges: Seq<DnsExchangeObservationView>,
    pub outcome: NameResolutionStepOutcome,
    pub provenance: ProvenanceView,
}

impl DeepView for NameResolutionStep {
    type V = NameResolutionStepView;

    open spec fn deep_view(&self) -> NameResolutionStepView {
        NameResolutionStepView {
            source: self.source,
            query_names: self.query_names.deep_view(),
            dns_exchanges: self.dns_exchanges.deep_view(),
            outcome: self.outcome,
            provenance: self.provenance.deep_view(),
        }
    }
}

impl Clone for NameResolutionStep {
    fn clone(&self) -> (copy: Self)
        ensures
            copy.deep_view() == self.deep_view(),
    {
        let copy = NameResolutionStep {
            source: self.source,
            query_names: self.query_names.clone(),
            dns_exchanges: self.dns_exchanges.clone(),
            outcome: self.outcome,
            provenance: self.provenance.clone(),
        };
        assert(copy.query_names.deep_view() =~= self.query_names.deep_view());
        assert(copy.dns_exchanges.deep_view() =~= self.dns_exchanges.deep_view());
        copy
    }
}

/// How a name was resolved, step by step.
#[derive(Debug, Eq, PartialEq)]
pub struct NameResolutionObservation {
    pub input_name: String,
    pub steps: Vec<NameResolutionStep>,
    pub limitations: Vec<String>,
    pub result: SystemResolverResult,
}

/// The contents of a [`NameResolutionObservation`].
#[verifier::ext_equal]
pub struct NameResolutionObservationView {
    pub input_name: Seq<char>,
    pub steps: Seq<NameResolutionStepView>,
    pub limitations: Seq<Seq<char>>,
    pub result: SystemResolverResultView,
}

impl DeepView for NameResolutionObservation {
    type V = NameResolutionObservationView;

    open spec fn deep_view(&self) -> NameResolutionObservationView {
        NameResolutionObservationView {
            input_name: self.input_name.deep_view(),
            steps: self.steps.deep_view(),
            limitations: self.limitations.deep_view(),
            result: self.result.deep_view(),
        }
    }
}

impl Clone for NameResolutionObservation {
    fn clone(&self) -> (copy: Self)
        ensures
            copy.deep_view() == self.deep_view(),
    {
        let copy = NameResolutionObservation {
            input_name: self.input_name.clone(),
            steps: self.steps.clone(),
            limitations: self.limitations.clone(),
            result: self.result.clone(),
        };
        assert(copy.steps.deep_view() =~= self.steps.deep_view());
        assert(copy.limitations.deep_view() =~= self.limitations.deep_view());
        copy
    }
}

#[derive(Debug, Eq, PartialEq)]
pub struct SystemResolverObservation {
    pub started_at: Duration,
    pub completed_at: Duration,
    pub name_resolution: NameResolutionObservation,
    pub provenance: Provenance,
}

/// The contents of a [`SystemResolverObservation`].
#[verifier::ext_equal]
pub struct SystemResolverObservationView {
    pub started_at: Duration,
    pub completed_at: Duration,
    pub name_resolution: NameResolutionObservationView,
    pub provenance: ProvenanceView,
}

impl DeepView for SystemResolverObservation {
    type V = SystemResolverObservationView;

    open spec fn deep_view(&self) -> SystemResolverObservationView {
        SystemResolverObservationView {
            started_at: self.started_at,
            completed_at: self.completed_at,
            name_resolution: self.name_resolution.deep_view(),
            provenance: self.provenance.deep_view(),
        }
    }
}

impl Clone for SystemResolverObservation {
    fn clone(&self) -> (copy: Self)
        ensures
            copy.deep_view() == self.deep_view(),
    {
        SystemResolverObservation {
            started_at: self.started_at,
            completed_at: self.completed_at,
            name_resolution: self.name_resolution.clone(),
            provenance: self.provenance.clone(),
        }
    }
}

#[derive(Clone, Copy, Debug, Eq, PartialEq, Structural)]
pub enum InterfaceState {
    Up,
    Down,
    Dormant,
    Unknown,
}

impl DeepView for InterfaceState {
    type V = InterfaceState;

    open spec fn deep_view(&self) -> InterfaceState {
        *self
    }
}

#[derive(Debug, Eq, PartialEq)]
pub struct InterfaceAddress {
    pub network: IpNet,
    pub scope_id: Option<u32>,
    pub provenance: Provenance,
}

/// The contents of a [`InterfaceAddress`].
#[verifier::ext_equal]
pub struct InterfaceAddressView {
    pub network: IpNet,
    pub scope_id: Option<u32>,
    pub provenance: ProvenanceView,
}

impl DeepView for InterfaceAddress {
    type V = InterfaceAddressView;

    open spec fn deep_view(&self) -> InterfaceAddressView {
        InterfaceAddressView {
            network: self.network,
            scope_id: self.scope_id,
            provenance: self.provenance.deep_view(),
        }
    }
}

impl Clone for InterfaceAddress {
    fn clone(&self) -> (copy: Self)
        ensures
            copy.deep_view() == self.deep_view(),
    {
        InterfaceAddress {
            network: self.network,
            scope_id: self.scope_id,
            provenance: self.provenance.clone(),
        }
    }
}

#[derive(Debug, Eq, PartialEq)]
pub struct InterfaceFact {
    pub id: InterfaceId,
    pub system_name: String,
    pub display_name: String,
    pub administrative_state: InterfaceState,
    pub operational_state: InterfaceState,
    pub is_loopback: bool,
    pub addresses: Vec<InterfaceAddress>,
    pub provenance: Provenance,
}

/// The contents of a [`InterfaceFact`].
#[verifier::ext_equal]
pub struct InterfaceFactView {
    pub id: InterfaceIdView,
    pub system_name: Seq<char>,
    pub display_name: Seq<char>,
    pub administrative_state: InterfaceState,
    pub operational_state: InterfaceState,
    pub is_loopback: bool,
    pub addresses: Seq<InterfaceAddressView>,
    pub provenance: ProvenanceView,
}

impl DeepView for InterfaceFact {
    type V = InterfaceFactView;

    open spec fn deep_view(&self) -> InterfaceFactView {
        InterfaceFactView {
            id: self.id.deep_view(),
            system_name: self.system_name.deep_view(),
            display_name: self.display_name.deep_view(),
            administrative_state: self.administrative_state,
            operational_state: self.operational_state,
            is_loopback: self.is_loopback,
            addresses: self.addresses.deep_view(),
            provenance: self.provenance.deep_view(),
        }
    }
}

impl Clone for InterfaceFact {
    fn clone(&self) -> (copy: Self)
        ensures
            copy.deep_view() == self.deep_view(),
    {
        let copy = InterfaceFact {
            id: self.id.clone(),
            system_name: self.system_name.clone(),
            display_name: self.display_name.clone(),
            administrative_state: self.administrative_state,
            operational_state: self.operational_state,
            is_loopback: self.is_loopback,
            addresses: self.addresses.clone(),
            provenance: self.provenance.clone(),
        };
        assert(copy.addresses.deep_view() =~= self.addresses.deep_view());
        copy
    }
}

#[derive(Clone, Copy, Debug, Eq, PartialEq, Structural)]
pub enum RouteBehavior {
    Unicast,
    Local,
    Broadcast,
    Multicast,
    Reject,
    Blackhole,
    Unreachable,
    Prohibit,
    Throw,
    Unknown,
}

impl DeepView for RouteBehavior {
    type V = RouteBehavior;

    open spec fn deep_view(&self) -> RouteBehavior {
        *self
    }
}

#[derive(Debug, Eq, PartialEq)]
pub struct RouteFact {
    pub destination: IpNet,
    pub next_hop: Option<IpAddr>,
    pub egress_interface: Option<InterfaceId>,
    pub behavior: RouteBehavior,
    pub metric: Option<u64>,
    pub table_or_compartment: Option<u64>,
    pub preferred_source: Option<IpAddr>,
    /// ECMP weight when this fact represents one leg of a multipath route.
    pub multipath_weight: Option<u16>,
    pub provenance: Provenance,
}

/// The contents of a [`RouteFact`].
#[verifier::ext_equal]
pub struct RouteFactView {
    pub destination: IpNet,
    pub next_hop: Option<IpAddr>,
    pub egress_interface: Option<InterfaceIdView>,
    pub behavior: RouteBehavior,
    pub metric: Option<u64>,
    pub table_or_compartment: Option<u64>,
    pub preferred_source: Option<IpAddr>,
    pub multipath_weight: Option<u16>,
    pub provenance: ProvenanceView,
}

impl DeepView for RouteFact {
    type V = RouteFactView;

    open spec fn deep_view(&self) -> RouteFactView {
        RouteFactView {
            destination: self.destination,
            next_hop: self.next_hop,
            egress_interface: self.egress_interface.deep_view(),
            behavior: self.behavior,
            metric: self.metric,
            table_or_compartment: self.table_or_compartment,
            preferred_source: self.preferred_source,
            multipath_weight: self.multipath_weight,
            provenance: self.provenance.deep_view(),
        }
    }
}

impl Clone for RouteFact {
    fn clone(&self) -> (copy: Self)
        ensures
            copy.deep_view() == self.deep_view(),
    {
        RouteFact {
            destination: self.destination,
            next_hop: self.next_hop,
            egress_interface: self.egress_interface.clone(),
            behavior: self.behavior,
            metric: self.metric,
            table_or_compartment: self.table_or_compartment,
            preferred_source: self.preferred_source,
            multipath_weight: self.multipath_weight,
            provenance: self.provenance.clone(),
        }
    }
}

#[derive(Debug, Eq, PartialEq)]
pub struct PathSelectionFact {
    pub family: AddressFamily,
    pub priority: Option<u64>,
    pub table_or_domain: Option<u64>,
    pub description: String,
    pub provenance: Provenance,
}

/// The contents of a [`PathSelectionFact`].
#[verifier::ext_equal]
pub struct PathSelectionFactView {
    pub family: AddressFamily,
    pub priority: Option<u64>,
    pub table_or_domain: Option<u64>,
    pub description: Seq<char>,
    pub provenance: ProvenanceView,
}

impl DeepView for PathSelectionFact {
    type V = PathSelectionFactView;

    open spec fn deep_view(&self) -> PathSelectionFactView {
        PathSelectionFactView {
            family: self.family,
            priority: self.priority,
            table_or_domain: self.table_or_domain,
            description: self.description.deep_view(),
            provenance: self.provenance.deep_view(),
        }
    }
}

impl Clone for PathSelectionFact {
    fn clone(&self) -> (copy: Self)
        ensures
            copy.deep_view() == self.deep_view(),
    {
        PathSelectionFact {
            family: self.family,
            priority: self.priority,
            table_or_domain: self.table_or_domain,
            description: self.description.clone(),
            provenance: self.provenance.clone(),
        }
    }
}

#[derive(Debug, Eq, PartialEq)]
pub struct RoutingPolicyFacts {
    pub facts: Vec<PathSelectionFact>,
    /// True only when the captured facts are sufficient to reproduce the
    /// relevant static policy decision without guessing.
    pub static_selection_complete: bool,
    pub limitations: Vec<String>,
}

/// The contents of a [`RoutingPolicyFacts`].
#[verifier::ext_equal]
pub struct RoutingPolicyFactsView {
    pub facts: Seq<PathSelectionFactView>,
    pub static_selection_complete: bool,
    pub limitations: Seq<Seq<char>>,
}

impl DeepView for RoutingPolicyFacts {
    type V = RoutingPolicyFactsView;

    open spec fn deep_view(&self) -> RoutingPolicyFactsView {
        RoutingPolicyFactsView {
            facts: self.facts.deep_view(),
            static_selection_complete: self.static_selection_complete,
            limitations: self.limitations.deep_view(),
        }
    }
}

impl Clone for RoutingPolicyFacts {
    fn clone(&self) -> (copy: Self)
        ensures
            copy.deep_view() == self.deep_view(),
    {
        let copy = RoutingPolicyFacts {
            facts: self.facts.clone(),
            static_selection_complete: self.static_selection_complete,
            limitations: self.limitations.clone(),
        };
        assert(copy.facts.deep_view() =~= self.facts.deep_view());
        assert(copy.limitations.deep_view() =~= self.limitations.deep_view());
        copy
    }
}

#[derive(Clone, Copy, Debug, Eq, PartialEq, Structural)]
pub enum ResolverTransport {
    Udp,
    Tcp,
    Tls,
    Https,
    SystemPrivate,
    Unknown,
}

impl DeepView for ResolverTransport {
    type V = ResolverTransport;

    open spec fn deep_view(&self) -> ResolverTransport {
        *self
    }
}

#[derive(Debug, Eq, PartialEq)]
pub struct ResolverEndpoint {
    pub address: IpAddr,
    pub port: u16,
    pub transport: ResolverTransport,
    pub interface: Option<InterfaceId>,
    pub domains: Vec<String>,
    pub priority: Option<u64>,
    pub provenance: Provenance,
}

/// The contents of a [`ResolverEndpoint`].
#[verifier::ext_equal]
pub struct ResolverEndpointView {
    pub address: IpAddr,
    pub port: u16,
    pub transport: ResolverTransport,
    pub interface: Option<InterfaceIdView>,
    pub domains: Seq<Seq<char>>,
    pub priority: Option<u64>,
    pub provenance: ProvenanceView,
}

impl DeepView for ResolverEndpoint {
    type V = ResolverEndpointView;

    open spec fn deep_view(&self) -> ResolverEndpointView {
        ResolverEndpointView {
            address: self.address,
            port: self.port,
            transport: self.transport,
            interface: self.interface.deep_view(),
            domains: self.domains.deep_view(),
            priority: self.priority,
            provenance: self.provenance.deep_view(),
        }
    }
}

impl Clone for ResolverEndpoint {
    fn clone(&self) -> (copy: Self)
        ensures
            copy.deep_view() == self.deep_view(),
    {
        let copy = ResolverEndpoint {
            address: self.address,
            port: self.port,
            transport: self.transport,
            interface: self.interface.clone(),
            domains: self.domains.clone(),
            priority: self.priority,
            provenance: self.provenance.clone(),
        };
        assert(copy.domains.deep_view() =~= self.domains.deep_view());
        copy
    }
}

#[derive(Debug, Eq, PartialEq)]
pub struct ResolverConfiguration {
    pub endpoints: Vec<ResolverEndpoint>,
    pub search_domains: Vec<String>,
    pub non_dns_sources: Vec<String>,
    /// Whether the captured name-resolution source policy proves that classic
    /// DNS endpoints can participate at all. This does not prove which
    /// endpoint, query name, or transport the system resolver actually used.
    pub dns_protocol_candidates_applicable: CapabilityValue<bool>,
    pub ordering_is_semantic: bool,
    /// Explicitly records exposed facts that the selected platform APIs cannot
    /// represent completely. Partial data must never masquerade as complete.
    pub limitations: Vec<String>,
    pub provenance: Provenance,
}

/// The contents of a [`ResolverConfiguration`].
#[verifier::ext_equal]
pub struct ResolverConfigurationView {
    pub endpoints: Seq<ResolverEndpointView>,
    pub search_domains: Seq<Seq<char>>,
    pub non_dns_sources: Seq<Seq<char>>,
    pub dns_protocol_candidates_applicable: CapabilityValueView<bool>,
    pub ordering_is_semantic: bool,
    pub limitations: Seq<Seq<char>>,
    pub provenance: ProvenanceView,
}

impl DeepView for ResolverConfiguration {
    type V = ResolverConfigurationView;

    open spec fn deep_view(&self) -> ResolverConfigurationView {
        ResolverConfigurationView {
            endpoints: self.endpoints.deep_view(),
            search_domains: self.search_domains.deep_view(),
            non_dns_sources: self.non_dns_sources.deep_view(),
            dns_protocol_candidates_applicable: self.dns_protocol_candidates_applicable.deep_view(),
            ordering_is_semantic: self.ordering_is_semantic,
            limitations: self.limitations.deep_view(),
            provenance: self.provenance.deep_view(),
        }
    }
}

impl Clone for ResolverConfiguration {
    fn clone(&self) -> (copy: Self)
        ensures
            copy.deep_view() == self.deep_view(),
    {
        let copy = ResolverConfiguration {
            endpoints: self.endpoints.clone(),
            search_domains: self.search_domains.clone(),
            non_dns_sources: self.non_dns_sources.clone(),
            dns_protocol_candidates_applicable: self.dns_protocol_candidates_applicable.clone(),
            ordering_is_semantic: self.ordering_is_semantic,
            limitations: self.limitations.clone(),
            provenance: self.provenance.clone(),
        };
        assert(copy.endpoints.deep_view() =~= self.endpoints.deep_view());
        assert(copy.search_domains.deep_view() =~= self.search_domains.deep_view());
        assert(copy.non_dns_sources.deep_view() =~= self.non_dns_sources.deep_view());
        assert(copy.limitations.deep_view() =~= self.limitations.deep_view());
        copy
    }
}

#[derive(Clone, Copy, Debug, Eq, Ord, PartialEq, PartialOrd, Structural)]
pub enum SnapshotInconsistencyScope {
    PathSelection,
    ResolverSelection,
}

impl DeepView for SnapshotInconsistencyScope {
    type V = SnapshotInconsistencyScope;

    open spec fn deep_view(&self) -> SnapshotInconsistencyScope {
        *self
    }
}

#[derive(Debug, Eq, Ord, PartialEq, PartialOrd)]
pub struct SnapshotInconsistency {
    pub scope: SnapshotInconsistencyScope,
    pub detail: String,
}

/// The contents of a [`SnapshotInconsistency`].
#[verifier::ext_equal]
pub struct SnapshotInconsistencyView {
    pub scope: SnapshotInconsistencyScope,
    pub detail: Seq<char>,
}

impl DeepView for SnapshotInconsistency {
    type V = SnapshotInconsistencyView;

    open spec fn deep_view(&self) -> SnapshotInconsistencyView {
        SnapshotInconsistencyView {
            scope: self.scope,
            detail: self.detail.deep_view(),
        }
    }
}

impl Clone for SnapshotInconsistency {
    fn clone(&self) -> (copy: Self)
        ensures
            copy.deep_view() == self.deep_view(),
    {
        SnapshotInconsistency {
            scope: self.scope,
            detail: self.detail.clone(),
        }
    }
}

/// The network configuration as it was captured when the run began.
#[derive(Debug, Eq, PartialEq)]
pub struct InitialNetworkSnapshot {
    pub capture_started_at: Duration,
    pub capture_completed_at: Duration,
    pub interfaces: CapabilityValue<Vec<InterfaceFact>>,
    pub routes_v4: CapabilityValue<Vec<RouteFact>>,
    pub routes_v6: CapabilityValue<Vec<RouteFact>>,
    pub routing_policy_facts: CapabilityValue<RoutingPolicyFacts>,
    pub resolver_configuration: CapabilityValue<ResolverConfiguration>,
    pub inconsistencies: Vec<SnapshotInconsistency>,
}

/// The contents of a [`InitialNetworkSnapshot`].
#[verifier::ext_equal]
pub struct InitialNetworkSnapshotView {
    pub capture_started_at: Duration,
    pub capture_completed_at: Duration,
    pub interfaces: CapabilityValueView<Seq<InterfaceFactView>>,
    pub routes_v4: CapabilityValueView<Seq<RouteFactView>>,
    pub routes_v6: CapabilityValueView<Seq<RouteFactView>>,
    pub routing_policy_facts: CapabilityValueView<RoutingPolicyFactsView>,
    pub resolver_configuration: CapabilityValueView<ResolverConfigurationView>,
    pub inconsistencies: Seq<SnapshotInconsistencyView>,
}

impl DeepView for InitialNetworkSnapshot {
    type V = InitialNetworkSnapshotView;

    open spec fn deep_view(&self) -> InitialNetworkSnapshotView {
        InitialNetworkSnapshotView {
            capture_started_at: self.capture_started_at,
            capture_completed_at: self.capture_completed_at,
            interfaces: self.interfaces.deep_view(),
            routes_v4: self.routes_v4.deep_view(),
            routes_v6: self.routes_v6.deep_view(),
            routing_policy_facts: self.routing_policy_facts.deep_view(),
            resolver_configuration: self.resolver_configuration.deep_view(),
            inconsistencies: self.inconsistencies.deep_view(),
        }
    }
}

impl Clone for InitialNetworkSnapshot {
    fn clone(&self) -> (copy: Self)
        ensures
            copy.deep_view() == self.deep_view(),
    {
        let copy = InitialNetworkSnapshot {
            capture_started_at: self.capture_started_at,
            capture_completed_at: self.capture_completed_at,
            interfaces: self.interfaces.clone(),
            routes_v4: self.routes_v4.clone(),
            routes_v6: self.routes_v6.clone(),
            routing_policy_facts: self.routing_policy_facts.clone(),
            resolver_configuration: self.resolver_configuration.clone(),
            inconsistencies: self.inconsistencies.clone(),
        };
        assert(copy.inconsistencies.deep_view() =~= self.inconsistencies.deep_view());
        copy
    }
}

#[derive(Clone, Copy, Debug, Eq, PartialEq, Structural)]
pub enum PathRelation {
    Local,
    OnLink,
    Remote,
    Unknown,
}

impl DeepView for PathRelation {
    type V = PathRelation;

    open spec fn deep_view(&self) -> PathRelation {
        *self
    }
}

/// The path that the kernel uses for an operation at the time it is asked.
#[derive(Debug, Eq, PartialEq)]
pub struct OperationPathContext {
    pub captured_at: Duration,
    pub target_or_dependency: IpAddr,
    pub family: AddressFamily,
    pub egress_interface: Option<InterfaceId>,
    pub relation: PathRelation,
    pub next_hop: Option<IpAddr>,
    pub preferred_source: Option<IpAddr>,
    pub relation_to_initial_snapshot: Option<String>,
    pub provenance: Provenance,
}

/// The contents of a [`OperationPathContext`].
#[verifier::ext_equal]
pub struct OperationPathContextView {
    pub captured_at: Duration,
    pub target_or_dependency: IpAddr,
    pub family: AddressFamily,
    pub egress_interface: Option<InterfaceIdView>,
    pub relation: PathRelation,
    pub next_hop: Option<IpAddr>,
    pub preferred_source: Option<IpAddr>,
    pub relation_to_initial_snapshot: Option<Seq<char>>,
    pub provenance: ProvenanceView,
}

impl DeepView for OperationPathContext {
    type V = OperationPathContextView;

    open spec fn deep_view(&self) -> OperationPathContextView {
        OperationPathContextView {
            captured_at: self.captured_at,
            target_or_dependency: self.target_or_dependency,
            family: self.family,
            egress_interface: self.egress_interface.deep_view(),
            relation: self.relation,
            next_hop: self.next_hop,
            preferred_source: self.preferred_source,
            relation_to_initial_snapshot: self.relation_to_initial_snapshot.deep_view(),
            provenance: self.provenance.deep_view(),
        }
    }
}

impl Clone for OperationPathContext {
    fn clone(&self) -> (copy: Self)
        ensures
            copy.deep_view() == self.deep_view(),
    {
        OperationPathContext {
            captured_at: self.captured_at,
            target_or_dependency: self.target_or_dependency,
            family: self.family,
            egress_interface: self.egress_interface.clone(),
            relation: self.relation,
            next_hop: self.next_hop,
            preferred_source: self.preferred_source,
            relation_to_initial_snapshot: self.relation_to_initial_snapshot.clone(),
            provenance: self.provenance.clone(),
        }
    }
}

#[derive(Debug, Eq, Hash, PartialEq)]
pub struct NeighborIdentity {
    pub family: AddressFamily,
    pub interface: InterfaceId,
    pub address: IpAddr,
}

/// The contents of a [`NeighborIdentity`].
#[verifier::ext_equal]
pub struct NeighborIdentityView {
    pub family: AddressFamily,
    pub interface: InterfaceIdView,
    pub address: IpAddr,
}

impl DeepView for NeighborIdentity {
    type V = NeighborIdentityView;

    open spec fn deep_view(&self) -> NeighborIdentityView {
        NeighborIdentityView {
            family: self.family,
            interface: self.interface.deep_view(),
            address: self.address,
        }
    }
}

impl Clone for NeighborIdentity {
    fn clone(&self) -> (copy: Self)
        ensures
            copy.deep_view() == self.deep_view(),
    {
        NeighborIdentity {
            family: self.family,
            interface: self.interface.clone(),
            address: self.address,
        }
    }
}

impl NeighborIdentity {
    /// Whether two neighbors are the same in every part.
    pub fn same(&self, other: &NeighborIdentity) -> (result: bool)
        ensures
            result == (self.deep_view() == other.deep_view()),
    {
        self.family == other.family && self.interface.same(&other.interface) && self.address
            == other.address
    }
}

#[derive(Clone, Copy, Debug, Eq, PartialEq, Structural)]
pub enum NeighborState {
    Absent,
    Resolving,
    Usable,
    TerminalFailure,
    Unknown,
}

impl DeepView for NeighborState {
    type V = NeighborState;

    open spec fn deep_view(&self) -> NeighborState {
        *self
    }
}

#[derive(Debug, Eq, PartialEq)]
pub struct NeighborFact {
    pub identity: NeighborIdentity,
    pub state: NeighborState,
    pub observed_at: Duration,
    pub raw_state: Option<String>,
    pub provenance: Provenance,
}

/// The contents of a [`NeighborFact`].
#[verifier::ext_equal]
pub struct NeighborFactView {
    pub identity: NeighborIdentityView,
    pub state: NeighborState,
    pub observed_at: Duration,
    pub raw_state: Option<Seq<char>>,
    pub provenance: ProvenanceView,
}

impl DeepView for NeighborFact {
    type V = NeighborFactView;

    open spec fn deep_view(&self) -> NeighborFactView {
        NeighborFactView {
            identity: self.identity.deep_view(),
            state: self.state,
            observed_at: self.observed_at,
            raw_state: self.raw_state.deep_view(),
            provenance: self.provenance.deep_view(),
        }
    }
}

impl Clone for NeighborFact {
    fn clone(&self) -> (copy: Self)
        ensures
            copy.deep_view() == self.deep_view(),
    {
        NeighborFact {
            identity: self.identity.clone(),
            state: self.state,
            observed_at: self.observed_at,
            raw_state: self.raw_state.clone(),
            provenance: self.provenance.clone(),
        }
    }
}

#[derive(Clone, Copy, Debug, Eq, Hash, Ord, PartialEq, PartialOrd, Structural)]
pub struct AttemptId(pub u64);

impl DeepView for AttemptId {
    type V = AttemptId;

    open spec fn deep_view(&self) -> AttemptId {
        *self
    }
}

#[derive(Debug, Eq, Hash, PartialEq)]
pub enum AttemptSubject {
    Target(TargetIp),
    NextHop(NeighborIdentity),
    Resolver { endpoint: SocketAddr, query_name: String },
}

/// The contents of a [`AttemptSubject`].
#[verifier::ext_equal]
pub enum AttemptSubjectView {
    Target(TargetIpView),
    NextHop(NeighborIdentityView),
    Resolver { endpoint: SocketAddr, query_name: Seq<char> },
}

impl DeepView for AttemptSubject {
    type V = AttemptSubjectView;

    open spec fn deep_view(&self) -> AttemptSubjectView {
        match self {
            AttemptSubject::Target(value) => AttemptSubjectView::Target(value.deep_view()),
            AttemptSubject::NextHop(value) => AttemptSubjectView::NextHop(value.deep_view()),
            AttemptSubject::Resolver { endpoint, query_name } => AttemptSubjectView::Resolver {
                endpoint: *endpoint,
                query_name: query_name.deep_view(),
            },
        }
    }
}

impl Clone for AttemptSubject {
    fn clone(&self) -> (copy: Self)
        ensures
            copy.deep_view() == self.deep_view(),
    {
        match self {
            AttemptSubject::Target(value) => AttemptSubject::Target(value.clone()),
            AttemptSubject::NextHop(value) => AttemptSubject::NextHop(value.clone()),
            AttemptSubject::Resolver { endpoint, query_name } => AttemptSubject::Resolver {
                endpoint: *endpoint,
                query_name: query_name.clone(),
            },
        }
    }
}

#[derive(Clone, Copy, Debug, Eq, PartialEq, Structural)]
pub enum AttemptKind {
    TcpConnect,
    TargetIcmpEcho,
    NextHopIcmpEcho,
    TcpPath { hop_limit: u8 },
    IcmpPath { hop_limit: u8 },
    DnsUdp { query_type: DnsQueryType },
    DnsTcp { query_type: DnsQueryType },
}

impl DeepView for AttemptKind {
    type V = AttemptKind;

    open spec fn deep_view(&self) -> AttemptKind {
        *self
    }
}

#[derive(Debug, Eq, PartialEq)]
pub enum TcpAttemptResult {
    Connected { local: CapabilityValue<IpEndpoint>, remote: CapabilityValue<IpEndpoint> },
    ConnectionRefused,
    NoRoute,
    NetworkUnreachable,
    HostUnreachable,
    PermissionDenied,
    ResourceExhausted,
    OtherExplicitError { os_code: Option<i32> },
    Timeout,
}

/// The contents of a [`TcpAttemptResult`].
#[verifier::ext_equal]
pub enum TcpAttemptResultView {
    Connected { local: CapabilityValueView<IpEndpoint>, remote: CapabilityValueView<IpEndpoint> },
    ConnectionRefused,
    NoRoute,
    NetworkUnreachable,
    HostUnreachable,
    PermissionDenied,
    ResourceExhausted,
    OtherExplicitError { os_code: Option<i32> },
    Timeout,
}

impl DeepView for TcpAttemptResult {
    type V = TcpAttemptResultView;

    open spec fn deep_view(&self) -> TcpAttemptResultView {
        match self {
            TcpAttemptResult::Connected { local, remote } => TcpAttemptResultView::Connected {
                local: local.deep_view(),
                remote: remote.deep_view(),
            },
            TcpAttemptResult::ConnectionRefused => TcpAttemptResultView::ConnectionRefused,
            TcpAttemptResult::NoRoute => TcpAttemptResultView::NoRoute,
            TcpAttemptResult::NetworkUnreachable => TcpAttemptResultView::NetworkUnreachable,
            TcpAttemptResult::HostUnreachable => TcpAttemptResultView::HostUnreachable,
            TcpAttemptResult::PermissionDenied => TcpAttemptResultView::PermissionDenied,
            TcpAttemptResult::ResourceExhausted => TcpAttemptResultView::ResourceExhausted,
            TcpAttemptResult::OtherExplicitError { os_code } => TcpAttemptResultView::OtherExplicitError {
                os_code: *os_code,
            },
            TcpAttemptResult::Timeout => TcpAttemptResultView::Timeout,
        }
    }
}

impl Clone for TcpAttemptResult {
    fn clone(&self) -> (copy: Self)
        ensures
            copy.deep_view() == self.deep_view(),
    {
        match self {
            TcpAttemptResult::Connected { local, remote } => TcpAttemptResult::Connected {
                local: local.clone(),
                remote: remote.clone(),
            },
            TcpAttemptResult::ConnectionRefused => TcpAttemptResult::ConnectionRefused,
            TcpAttemptResult::NoRoute => TcpAttemptResult::NoRoute,
            TcpAttemptResult::NetworkUnreachable => TcpAttemptResult::NetworkUnreachable,
            TcpAttemptResult::HostUnreachable => TcpAttemptResult::HostUnreachable,
            TcpAttemptResult::PermissionDenied => TcpAttemptResult::PermissionDenied,
            TcpAttemptResult::ResourceExhausted => TcpAttemptResult::ResourceExhausted,
            TcpAttemptResult::OtherExplicitError { os_code } => TcpAttemptResult::OtherExplicitError {
                os_code: *os_code,
            },
            TcpAttemptResult::Timeout => TcpAttemptResult::Timeout,
        }
    }
}

#[derive(Clone, Copy, Debug, Eq, PartialEq, Structural)]
pub enum IcmpMessageKind {
    EchoReply,
    DestinationUnreachable,
    TimeExceeded,
    PacketTooBig,
    ParameterProblem,
    Other,
}

impl DeepView for IcmpMessageKind {
    type V = IcmpMessageKind;

    open spec fn deep_view(&self) -> IcmpMessageKind {
        *self
    }
}

/// A status of the platform's own ICMP interface, which is not a code on the wire.
#[derive(Clone, Copy, Debug, Eq, PartialEq, Structural)]
pub enum IcmpNativeStatus {
    WindowsIpHelper(u32),
}

impl DeepView for IcmpNativeStatus {
    type V = IcmpNativeStatus;

    open spec fn deep_view(&self) -> IcmpNativeStatus {
        *self
    }
}

#[derive(Clone, Copy, Debug, Eq, PartialEq, Structural)]
pub struct IcmpMessageObservation {
    pub kind: IcmpMessageKind,
    pub responder: IpAddr,
    pub raw_type: Option<u16>,
    pub raw_code: Option<u16>,
}

impl DeepView for IcmpMessageObservation {
    type V = IcmpMessageObservation;

    open spec fn deep_view(&self) -> IcmpMessageObservation {
        *self
    }
}

#[derive(Debug, Eq, PartialEq)]
pub enum IcmpAttemptResult {
    Message {
        kind: IcmpMessageKind,
        responder: IpAddr,
        raw_type: Option<u16>,
        raw_code: Option<u16>,
        native_status: Option<IcmpNativeStatus>,
    },
    /// Multiple responses reliably correlated to the same path Attempt. This
    /// preserves responder identities without interpreting why they differ.
    Messages(Vec<IcmpMessageObservation>),
    ExplicitNetworkError { os_code: Option<i32> },
    Timeout,
}

/// The contents of a [`IcmpAttemptResult`].
#[verifier::ext_equal]
pub enum IcmpAttemptResultView {
    Message {
        kind: IcmpMessageKind,
        responder: IpAddr,
        raw_type: Option<u16>,
        raw_code: Option<u16>,
        native_status: Option<IcmpNativeStatus>,
    },
    Messages(Seq<IcmpMessageObservation>),
    ExplicitNetworkError { os_code: Option<i32> },
    Timeout,
}

impl DeepView for IcmpAttemptResult {
    type V = IcmpAttemptResultView;

    open spec fn deep_view(&self) -> IcmpAttemptResultView {
        match self {
            IcmpAttemptResult::Message { kind, responder, raw_type, raw_code, native_status } => IcmpAttemptResultView::Message {
                kind: *kind,
                responder: *responder,
                raw_type: *raw_type,
                raw_code: *raw_code,
                native_status: *native_status,
            },
            IcmpAttemptResult::Messages(value) => IcmpAttemptResultView::Messages(value.deep_view()),
            IcmpAttemptResult::ExplicitNetworkError { os_code } => IcmpAttemptResultView::ExplicitNetworkError {
                os_code: *os_code,
            },
            IcmpAttemptResult::Timeout => IcmpAttemptResultView::Timeout,
        }
    }
}

impl Clone for IcmpAttemptResult {
    fn clone(&self) -> (copy: Self)
        ensures
            copy.deep_view() == self.deep_view(),
    {
        match self {
            IcmpAttemptResult::Message { kind, responder, raw_type, raw_code, native_status } => IcmpAttemptResult::Message {
                kind: *kind,
                responder: *responder,
                raw_type: *raw_type,
                raw_code: *raw_code,
                native_status: *native_status,
            },
            IcmpAttemptResult::Messages(value) => {
                let duplicate = value.clone();
                assert(duplicate.deep_view() =~= value.deep_view());
                IcmpAttemptResult::Messages(duplicate)
            },
            IcmpAttemptResult::ExplicitNetworkError { os_code } => IcmpAttemptResult::ExplicitNetworkError {
                os_code: *os_code,
            },
            IcmpAttemptResult::Timeout => IcmpAttemptResult::Timeout,
        }
    }
}

#[derive(Debug, Eq, PartialEq)]
pub enum DnsAttemptResult {
    Response {
        response_code: u16,
        addresses: Vec<IpAddr>,
        aliases: Vec<String>,
        truncated: bool,
    },
    TransportError { os_code: Option<i32> },
    ProtocolError,
    Timeout,
}

/// The contents of a [`DnsAttemptResult`].
#[verifier::ext_equal]
pub enum DnsAttemptResultView {
    Response {
        response_code: u16,
        addresses: Seq<IpAddr>,
        aliases: Seq<Seq<char>>,
        truncated: bool,
    },
    TransportError { os_code: Option<i32> },
    ProtocolError,
    Timeout,
}

impl DeepView for DnsAttemptResult {
    type V = DnsAttemptResultView;

    open spec fn deep_view(&self) -> DnsAttemptResultView {
        match self {
            DnsAttemptResult::Response { response_code, addresses, aliases, truncated } => DnsAttemptResultView::Response {
                response_code: *response_code,
                addresses: addresses.deep_view(),
                aliases: aliases.deep_view(),
                truncated: *truncated,
            },
            DnsAttemptResult::TransportError { os_code } => DnsAttemptResultView::TransportError {
                os_code: *os_code,
            },
            DnsAttemptResult::ProtocolError => DnsAttemptResultView::ProtocolError,
            DnsAttemptResult::Timeout => DnsAttemptResultView::Timeout,
        }
    }
}

impl Clone for DnsAttemptResult {
    fn clone(&self) -> (copy: Self)
        ensures
            copy.deep_view() == self.deep_view(),
    {
        match self {
            DnsAttemptResult::Response { response_code, addresses, aliases, truncated } => {
                let addresses_copy = addresses.clone();
                assert(addresses_copy.deep_view() =~= addresses.deep_view());
                let aliases_copy = aliases.clone();
                assert(aliases_copy.deep_view() =~= aliases.deep_view());
                DnsAttemptResult::Response {
                    response_code: *response_code,
                    addresses: addresses_copy,
                    aliases: aliases_copy,
                    truncated: *truncated,
                }
            },
            DnsAttemptResult::TransportError { os_code } => DnsAttemptResult::TransportError {
                os_code: *os_code,
            },
            DnsAttemptResult::ProtocolError => DnsAttemptResult::ProtocolError,
            DnsAttemptResult::Timeout => DnsAttemptResult::Timeout,
        }
    }
}

#[derive(Debug, Eq, PartialEq)]
pub enum AttemptOutcome {
    Tcp(TcpAttemptResult),
    Icmp(IcmpAttemptResult),
    Dns(DnsAttemptResult),
}

/// The contents of a [`AttemptOutcome`].
#[verifier::ext_equal]
pub enum AttemptOutcomeView {
    Tcp(TcpAttemptResultView),
    Icmp(IcmpAttemptResultView),
    Dns(DnsAttemptResultView),
}

impl DeepView for AttemptOutcome {
    type V = AttemptOutcomeView;

    open spec fn deep_view(&self) -> AttemptOutcomeView {
        match self {
            AttemptOutcome::Tcp(value) => AttemptOutcomeView::Tcp(value.deep_view()),
            AttemptOutcome::Icmp(value) => AttemptOutcomeView::Icmp(value.deep_view()),
            AttemptOutcome::Dns(value) => AttemptOutcomeView::Dns(value.deep_view()),
        }
    }
}

impl Clone for AttemptOutcome {
    fn clone(&self) -> (copy: Self)
        ensures
            copy.deep_view() == self.deep_view(),
    {
        match self {
            AttemptOutcome::Tcp(value) => AttemptOutcome::Tcp(value.clone()),
            AttemptOutcome::Icmp(value) => AttemptOutcome::Icmp(value.clone()),
            AttemptOutcome::Dns(value) => AttemptOutcome::Dns(value.clone()),
        }
    }
}

/// One network operation that was carried out, with its result.
#[derive(Debug, Eq, PartialEq)]
pub struct Attempt {
    pub id: AttemptId,
    pub subject: AttemptSubject,
    pub kind: AttemptKind,
    pub timing: AttemptTiming,
    pub outcome: AttemptOutcome,
    pub provenance: Provenance,
}

/// The contents of a [`Attempt`].
#[verifier::ext_equal]
pub struct AttemptView {
    pub id: AttemptId,
    pub subject: AttemptSubjectView,
    pub kind: AttemptKind,
    pub timing: AttemptTiming,
    pub outcome: AttemptOutcomeView,
    pub provenance: ProvenanceView,
}

impl DeepView for Attempt {
    type V = AttemptView;

    open spec fn deep_view(&self) -> AttemptView {
        AttemptView {
            id: self.id,
            subject: self.subject.deep_view(),
            kind: self.kind,
            timing: self.timing,
            outcome: self.outcome.deep_view(),
            provenance: self.provenance.deep_view(),
        }
    }
}

impl Clone for Attempt {
    fn clone(&self) -> (copy: Self)
        ensures
            copy.deep_view() == self.deep_view(),
    {
        Attempt {
            id: self.id,
            subject: self.subject.clone(),
            kind: self.kind,
            timing: self.timing,
            outcome: self.outcome.clone(),
            provenance: self.provenance.clone(),
        }
    }
}

} // verus!
