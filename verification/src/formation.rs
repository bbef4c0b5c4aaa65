//! Forming targets from literals once the initial snapshot exists.

use vstd::prelude::*;

use crate::capability::{CapabilityValue, CapabilityValueView};
use crate::input::{
    BoundAddressInput, BoundAddressInputView, DiagnosticRequest, DiagnosticRequestView,
    ParsedAddress, ParsedAddressView, ParsedRequest, ParsedRequestView, ScopeSyntax,
    ScopeSyntaxView,
};
use crate::lists;
use crate::model::{
    FormalTarget, InterfaceFact, InterfaceFactView, InterfaceId, InterfaceIdView, TargetIp,
    TargetIpView,
};
use crate::net::IpAddr;
use crate::text;

verus! {

#[derive(Clone, Copy, Debug, Eq, PartialEq, Structural)]
pub enum ScopeBindingError {
    InterfacesUnavailable,
    InterfaceNotFound,
    AmbiguousInterface,
}

impl DeepView for ScopeBindingError {
    type V = ScopeBindingError;

    open spec fn deep_view(&self) -> ScopeBindingError {
        *self
    }
}

impl ScopeBindingError {
    pub open spec fn shown(self) -> Seq<char> {
        match self {
            ScopeBindingError::InterfacesUnavailable => {
                "the interface snapshot is unavailable, so the IPv6 scope cannot be confirmed"@
            },
            ScopeBindingError::InterfaceNotFound => {
                "the IPv6 scope does not identify an interface in the initial snapshot"@
            },
            ScopeBindingError::AmbiguousInterface => {
                "the IPv6 scope maps to more than one interface in the initial snapshot"@
            },
        }
    }

    /// What is wrong, as a sentence for a user.
    pub fn message(self) -> (result: &'static str)
        ensures
            result@ == self.shown(),
    {
        match self {
            ScopeBindingError::InterfacesUnavailable => {
                "the interface snapshot is unavailable, so the IPv6 scope cannot be confirmed"
            },
            ScopeBindingError::InterfaceNotFound => {
                "the IPv6 scope does not identify an interface in the initial snapshot"
            },
            ScopeBindingError::AmbiguousInterface => {
                "the IPv6 scope maps to more than one interface in the initial snapshot"
            },
        }
    }
}

/// Accepts the interfaces that a scope names, by index or by either of their names.
pub open spec fn named_by(scope: ScopeSyntaxView) -> spec_fn(InterfaceFactView) -> bool {
    |interface: InterfaceFactView|
        match scope {
            ScopeSyntaxView::InterfaceIndex(index) => interface.id.index == index.number(),
            ScopeSyntaxView::InterfaceName(name) => interface.system_name == name
                || interface.display_name == name,
        }
}

/// The interface that a scope stands for: the only one that it names.
pub open spec fn scope_binding(
    scope: ScopeSyntaxView,
    interfaces: CapabilityValueView<Seq<InterfaceFactView>>,
) -> Result<InterfaceIdView, ScopeBindingError> {
    match interfaces.known() {
        None => Err(ScopeBindingError::InterfacesUnavailable),
        Some(known) => {
            let found = known.filter(named_by(scope));
            if found.len() == 0 {
                Err(ScopeBindingError::InterfaceNotFound)
            } else if found.len() > 1 {
                Err(ScopeBindingError::AmbiguousInterface)
            } else {
                Ok(found[0].id)
            }
        },
    }
}

/// The target of a literal. A hostname has none: its targets come only from the system
/// resolver.
pub open spec fn literal_target(
    address: ParsedAddressView,
    interfaces: CapabilityValueView<Seq<InterfaceFactView>>,
) -> Result<Option<TargetIpView>, ScopeBindingError> {
    match address {
        ParsedAddressView::Ipv4(address) => Ok(
            Some(TargetIpView { address: IpAddr::V4(address), scope: None }),
        ),
        ParsedAddressView::Ipv6 { address, scope: None } => Ok(
            Some(TargetIpView { address: IpAddr::V6(address), scope: None }),
        ),
        ParsedAddressView::Ipv6 { address, scope: Some(scope) } => match scope_binding(
            scope,
            interfaces,
        ) {
            Ok(id) => Ok(Some(TargetIpView { address: IpAddr::V6(address), scope: Some(id) })),
            Err(error) => Err(error),
        },
        ParsedAddressView::Hostname(_) => Ok(None),
    }
}

/// A request whose scope is bound to the snapshot.
pub open spec fn bound_request(
    parsed: ParsedRequestView,
    interfaces: CapabilityValueView<Seq<InterfaceFactView>>,
) -> Result<DiagnosticRequestView, ScopeBindingError> {
    match literal_target(parsed.address, interfaces) {
        Err(error) => Err(error),
        Ok(target) => Ok(
            DiagnosticRequestView {
                original_address: parsed.original_address,
                address: match parsed.address {
                    ParsedAddressView::Ipv4(_) => BoundAddressInputView::Ipv4Literal(
                        target->Some_0,
                    ),
                    ParsedAddressView::Ipv6 { .. } => BoundAddressInputView::Ipv6Literal(
                        target->Some_0,
                    ),
                    ParsedAddressView::Hostname(hostname) => BoundAddressInputView::Hostname(
                        hostname,
                    ),
                },
                port: parsed.port,
            },
        ),
    }
}

/// Forms an IP-literal target after the initial snapshot exists. Hostnames
/// return `None` because their targets must come only from the system resolver.
pub fn form_literal_target(
    address: &ParsedAddress,
    interfaces: &CapabilityValue<Vec<InterfaceFact>>,
) -> (result: Result<Option<FormalTarget>, ScopeBindingError>)
    ensures
        match result {
            Ok(formed) => literal_target(address.deep_view(), interfaces.deep_view()) == (Ok::<
                Option<TargetIpView>,
                ScopeBindingError,
            >(
                match formed {
                    Some(formal) => Some(formal.target.deep_view()),
                    None => None,
                },
            )) && (formed matches Some(formal) ==> formal.resolver_ordinal is None),
            Err(error) => literal_target(address.deep_view(), interfaces.deep_view()) == (Err::<
                Option<TargetIpView>,
                ScopeBindingError,
            >(error)),
        },
{
    let target = match address {
        ParsedAddress::Ipv4(address) => TargetIp::v4(*address),
        ParsedAddress::Ipv6 { address, scope } => match scope {
            None => TargetIp::v6(*address, None),
            Some(scope) => match bind_scope(scope, interfaces) {
                Ok(id) => TargetIp::v6(*address, Some(id)),
                Err(error) => return Err(error),
            },
        },
        ParsedAddress::Hostname(_) => return Ok(None),
    };
    Ok(Some(FormalTarget { target, resolver_ordinal: None }))
}

pub fn bind_diagnostic_request(
    parsed: &ParsedRequest,
    interfaces: &CapabilityValue<Vec<InterfaceFact>>,
) -> (result: Result<DiagnosticRequest, ScopeBindingError>)
    ensures
        match result {
            Ok(request) => bound_request(parsed.deep_view(), interfaces.deep_view()) == (Ok::<
                DiagnosticRequestView,
                ScopeBindingError,
            >(request.deep_view())),
            Err(error) => bound_request(parsed.deep_view(), interfaces.deep_view()) == (Err::<
                DiagnosticRequestView,
                ScopeBindingError,
            >(error)),
        },
{
    let formed = match form_literal_target(&parsed.address, interfaces) {
        Ok(formed) => formed,
        Err(error) => return Err(error),
    };
    let address = match (&parsed.address, formed) {
        (ParsedAddress::Ipv4(_), Some(formal)) => BoundAddressInput::Ipv4Literal(formal.target),
        (ParsedAddress::Ipv6 { .. }, Some(formal)) => {
            BoundAddressInput::Ipv6Literal(formal.target)
        },
        (ParsedAddress::Hostname(hostname), _) => BoundAddressInput::Hostname(hostname.clone()),
        (ParsedAddress::Ipv4(address), None) => {
            BoundAddressInput::Ipv4Literal(TargetIp::v4(*address))
        },
        (ParsedAddress::Ipv6 { address, .. }, None) => {
            BoundAddressInput::Ipv6Literal(TargetIp::v6(*address, None))
        },
    };
    Ok(
        DiagnosticRequest {
            original_address: parsed.original_address.clone(),
            address,
            port: parsed.port,
        },
    )
}

pub fn bind_scope(
    scope: &ScopeSyntax,
    interfaces: &CapabilityValue<Vec<InterfaceFact>>,
) -> (result: Result<InterfaceId, ScopeBindingError>)
    ensures
        match result {
            Ok(id) => scope_binding(scope.deep_view(), interfaces.deep_view()) == (Ok::<
                InterfaceIdView,
                ScopeBindingError,
            >(id.deep_view())),
            Err(error) => scope_binding(scope.deep_view(), interfaces.deep_view()) == (Err::<
                InterfaceIdView,
                ScopeBindingError,
            >(error)),
        },
{
    let CapabilityValue::Available { value: known, .. } = interfaces else {
        return Err(ScopeBindingError::InterfacesUnavailable);
    };
    let ghost all = known.deep_view();
    let ghost keep = named_by(scope.deep_view());
    let mut count: usize = 0;
    let mut first: usize = 0;
    let mut i: usize = 0;
    proof {
        lists::lemma_filter_empty(all, keep);
    }
    while i < known.len()
        invariant
            i <= known.len(),
            all == known.deep_view(),
            keep == named_by(scope.deep_view()),
            count == all.take(i as int).filter(keep).len(),
            count <= i,
            count > 0 ==> first < known.len() && all[first as int] == all.take(i as int).filter(
                keep,
            )[0],
        decreases known.len() - i,
    {
        proof {
            lists::lemma_filter_step(all, i as int, keep);
        }
        let interface = &known[i];
        assert(all[i as int] == interface.deep_view());
        let named = match scope {
            ScopeSyntax::InterfaceIndex(index) => interface.id.index == index.get(),
            ScopeSyntax::InterfaceName(name) => text::same_text(
                interface.system_name.as_str(),
                name.as_str(),
            ) || text::same_text(interface.display_name.as_str(), name.as_str()),
        };
        if named {
            if count == 0 {
                first = i;
            }
            count += 1;
        }
        i += 1;
    }
    assert(all.take(i as int) =~= all);
    if count == 0 {
        Err(ScopeBindingError::InterfaceNotFound)
    } else if count > 1 {
        Err(ScopeBindingError::AmbiguousInterface)
    } else {
        Ok(known[first].id.clone())
    }
}

} // verus!
