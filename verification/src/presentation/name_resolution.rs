//! The sections of a report that say how a name was resolved, and what direct DNS queries showed
//! where it was not.

use vstd::prelude::*;

use crate::model::{
    Attempt, AttemptId, AttemptKind, AttemptOutcome, AttemptOutcomeView, AttemptSubject,
    AttemptSubjectView, AttemptView, DnsAttemptResult, DnsAttemptResultView, DnsExchangeObservation,
    DnsExchangeObservationView, DnsExchangeOutcome, DnsExchangeOutcomeView, DnsExchangePurpose,
    DnsQueryType, DnsResponseCode, NameResolutionObservation, NameResolutionObservationView,
    NameResolutionSource, NameResolutionStepView,
};
use crate::model;
use crate::net::IpAddr;
use crate::presentation::safety;
use crate::presentation::{self, blank, field, human_duration, section, terminal_escape, Theme};
use crate::result::{
    AggregateOutcome, CompletedDiagnostic, CompletedDiagnosticView, EvidenceFact, EvidenceFactView,
    NameResolutionEvidenceOutcome, ResolverDependencyDiagnosticView,
};
use crate::lists;
use crate::text;
use crate::time::Duration;

verus! {

/// Where a name was looked up.
pub open spec fn source_text(source: NameResolutionSource) -> Seq<char> {
    match source {
        NameResolutionSource::Hosts => "hosts"@,
        NameResolutionSource::Dns => "DNS"@,
        NameResolutionSource::SystemResolverOpaque => "System resolver"@,
        NameResolutionSource::OtherPlatformSource => "platform source"@,
        NameResolutionSource::Unknown => "unknown"@,
    }
}

pub(crate) fn source_label(source: NameResolutionSource) -> (result: &'static str)
    ensures
        result@ == source_text(source),
        text::inert(result@),
{
    proof {
        reveal_strlit("hosts");
        reveal_strlit("DNS");
        reveal_strlit("System resolver");
        reveal_strlit("platform source");
        reveal_strlit("unknown");
    }
    match source {
        NameResolutionSource::Hosts => "hosts",
        NameResolutionSource::Dns => "DNS",
        NameResolutionSource::SystemResolverOpaque => "System resolver",
        NameResolutionSource::OtherPlatformSource => "platform source",
        NameResolutionSource::Unknown => "unknown",
    }
}

/// The name of a DNS response code.
pub open spec fn response_code_text(code: DnsResponseCode) -> Seq<char> {
    match code {
        DnsResponseCode::NoError => "No error"@,
        DnsResponseCode::FormErr => "FORMERR"@,
        DnsResponseCode::ServFail => "SERVFAIL"@,
        DnsResponseCode::NxDomain => "NXDOMAIN"@,
        DnsResponseCode::NotImp => "NOTIMP"@,
        DnsResponseCode::Refused => "REFUSED"@,
        DnsResponseCode::Other(_) => "other response code"@,
    }
}

pub(crate) fn dns_response_code_label(code: DnsResponseCode) -> (result: &'static str)
    ensures
        result@ == response_code_text(code),
        text::inert(result@),
{
    proof {
        reveal_strlit("No error");
        reveal_strlit("FORMERR");
        reveal_strlit("SERVFAIL");
        reveal_strlit("NXDOMAIN");
        reveal_strlit("NOTIMP");
        reveal_strlit("REFUSED");
        reveal_strlit("other response code");
    }
    match code {
        DnsResponseCode::NoError => "No error",
        DnsResponseCode::FormErr => "FORMERR",
        DnsResponseCode::ServFail => "SERVFAIL",
        DnsResponseCode::NxDomain => "NXDOMAIN",
        DnsResponseCode::NotImp => "NOTIMP",
        DnsResponseCode::Refused => "REFUSED",
        DnsResponseCode::Other(_) => "other response code",
    }
}

/// The name of a query type.
pub open spec fn query_type_text(query_type: DnsQueryType) -> Seq<char> {
    match query_type {
        DnsQueryType::A => "A"@,
        DnsQueryType::Aaaa => "AAAA"@,
    }
}

pub(crate) fn dns_query_type_label(query_type: DnsQueryType) -> (result: &'static str)
    ensures
        result@ == query_type_text(query_type),
        text::inert(result@),
{
    proof {
        reveal_strlit("A");
        reveal_strlit("AAAA");
    }
    match query_type {
        DnsQueryType::A => "A",
        DnsQueryType::Aaaa => "AAAA",
    }
}

/// What an answer without an address says.
pub open spec fn no_address_text(query_type: DnsQueryType) -> Seq<char> {
    match query_type {
        DnsQueryType::A => "No A address returned"@,
        DnsQueryType::Aaaa => "No AAAA address returned"@,
    }
}

fn no_address_label(query_type: DnsQueryType) -> (result: &'static str)
    ensures
        result@ == no_address_text(query_type),
        text::inert(result@),
{
    proof {
        reveal_strlit("No A address returned");
        reveal_strlit("No AAAA address returned");
    }
    match query_type {
        DnsQueryType::A => "No A address returned",
        DnsQueryType::Aaaa => "No AAAA address returned",
    }
}

/// What resolving a name led to.
pub open spec fn outcome_text(outcome: NameResolutionEvidenceOutcome) -> Seq<char> {
    match outcome {
        NameResolutionEvidenceOutcome::Succeeded => "returned destination addresses"@,
        NameResolutionEvidenceOutcome::SucceededWithoutUsableAddress => "completed, but returned no usable IP address"@,
        NameResolutionEvidenceOutcome::NegativeWithoutUsableAddress => "returned no usable IPv4 or IPv6 address"@,
        NameResolutionEvidenceOutcome::NonDefinitiveFailure => "failed without a definitive answer"@,
    }
}

pub(crate) fn name_resolution_outcome_label(outcome: NameResolutionEvidenceOutcome) -> (result:
    &'static str)
    ensures
        result@ == outcome_text(outcome),
        text::inert(result@),
{
    proof {
        reveal_strlit("returned destination addresses");
        reveal_strlit("completed, but returned no usable IP address");
        reveal_strlit("returned no usable IPv4 or IPv6 address");
        reveal_strlit("failed without a definitive answer");
    }
    match outcome {
        NameResolutionEvidenceOutcome::Succeeded => "returned destination addresses",
        NameResolutionEvidenceOutcome::SucceededWithoutUsableAddress => "completed, but returned no usable IP address",
        NameResolutionEvidenceOutcome::NegativeWithoutUsableAddress => "returned no usable IPv4 or IPv6 address",
        NameResolutionEvidenceOutcome::NonDefinitiveFailure => "failed without a definitive answer",
    }
}

/// The texts of a sequence of addresses.
pub open spec fn address_texts(addresses: Seq<IpAddr>) -> Seq<Seq<char>> {
    Seq::new(addresses.len(), |i: int| addresses[i].shown())
}

/// A sequence of texts as a terminal may show them.
pub open spec fn terminal_texts(values: Seq<Seq<char>>) -> Seq<Seq<char>> {
    Seq::new(values.len(), |i: int| presentation::terminal_text(values[i]))
}

/// What a DNS response says: its addresses, with the aliases that led to them, or why it holds
/// none.
pub open spec fn response_text(
    code: DnsResponseCode,
    addresses: Seq<IpAddr>,
    aliases: Seq<Seq<char>>,
    truncated: bool,
    query_type: DnsQueryType,
) -> Seq<char> {
    if addresses.len() > 0 {
        let listed = text::joined(address_texts(addresses), ", "@);
        if aliases.len() > 0 {
            listed + " (alias: "@ + text::joined(terminal_texts(aliases), ", "@) + ")"@
        } else {
            listed
        }
    } else if code == DnsResponseCode::NxDomain {
        response_code_text(code)
    } else if code == DnsResponseCode::NoError {
        if truncated {
            "Response truncated"@
        } else {
            no_address_text(query_type)
        }
    } else if truncated {
        response_code_text(code) + "; response truncated"@
    } else {
        match code {
            DnsResponseCode::Other(number) => "DNS response code "@ + text::decimal(
                number as nat,
            ),
            _ => response_code_text(code),
        }
    }
}

fn write_addresses(addresses: &Vec<IpAddr>) -> (result: Vec<String>)
    ensures
        result.deep_view() == address_texts(addresses@),
        text::all_inert(result.deep_view()),
{
    let mut result: Vec<String> = Vec::new();
    let mut i: usize = 0;
    assert(result.deep_view() =~= address_texts(addresses@.take(0)));
    while i < addresses.len()
        invariant
            i <= addresses.len(),
            result.deep_view() == address_texts(addresses@.take(i as int)),
            text::all_inert(result.deep_view()),
        decreases addresses.len() - i,
    {
        text::push_text(&mut result, addresses[i].to_text().as_str());
        assert(address_texts(addresses@.take(i + 1)) =~= address_texts(
            addresses@.take(i as int),
        ).push(addresses@[i as int].shown()));
        i += 1;
    }
    assert(addresses@.take(i as int) =~= addresses@);
    result
}

fn escape_all(values: &Vec<String>) -> (result: Vec<String>)
    ensures
        result.deep_view() == terminal_texts(values.deep_view()),
        text::all_inert(result.deep_view()),
{
    let ghost all = values.deep_view();
    let mut result: Vec<String> = Vec::new();
    let mut i: usize = 0;
    assert(result.deep_view() =~= terminal_texts(all.take(0)));
    while i < values.len()
        invariant
            i <= values.len(),
            all == values.deep_view(),
            result.deep_view() == terminal_texts(all.take(i as int)),
            text::all_inert(result.deep_view()),
        decreases values.len() - i,
    {
        text::push_text(&mut result, terminal_escape(values[i].as_str()).as_str());
        assert(terminal_texts(all.take(i + 1)) =~= terminal_texts(all.take(i as int)).push(
            presentation::terminal_text(all[i as int]),
        ));
        i += 1;
    }
    assert(all.take(i as int) =~= all);
    result
}

/// Says what a DNS response holds.
pub fn dns_attempt_response_label(
    code: DnsResponseCode,
    addresses: &Vec<IpAddr>,
    aliases: &Vec<String>,
    truncated: bool,
    query_type: DnsQueryType,
) -> (result: String)
    ensures
        result@ == response_text(code, addresses@, aliases.deep_view(), truncated, query_type),
        text::inert(result@),
{
    proof {
        reveal_strlit(", ");
        reveal_strlit(" (alias: ");
        reveal_strlit(")");
        reveal_strlit("Response truncated");
        reveal_strlit("; response truncated");
        reveal_strlit("DNS response code ");
    }
    if addresses.len() > 0 {
        let listed = text::join_all(&write_addresses(addresses), ", ");
        if aliases.len() > 0 {
            let names = text::join_all(&escape_all(aliases), ", ");
            return text::join4(listed.as_str(), " (alias: ", names.as_str(), ")");
        }
        return listed;
    }
    match code {
        DnsResponseCode::NxDomain => dns_response_code_label(code).to_owned(),
        DnsResponseCode::NoError => if truncated {
            "Response truncated".to_owned()
        } else {
            no_address_label(query_type).to_owned()
        },
        DnsResponseCode::Other(number) => if truncated {
            text::join2(dns_response_code_label(code), "; response truncated")
        } else {
            text::join2("DNS response code ", text::decimal_text(number as u64).as_str())
        },
        _ => if truncated {
            text::join2(dns_response_code_label(code), "; response truncated")
        } else {
            dns_response_code_label(code).to_owned()
        },
    }
}

/// What came out of a DNS exchange.
pub open spec fn exchange_text(
    outcome: DnsExchangeOutcomeView,
    query_type: DnsQueryType,
) -> Seq<char> {
    match outcome {
        DnsExchangeOutcomeView::Response { response_code, addresses, aliases, truncated } =>
            response_text(response_code, addresses, aliases, truncated, query_type),
        DnsExchangeOutcomeView::TransportError { .. } => "Transport error"@,
        DnsExchangeOutcomeView::ProtocolError => "Protocol error"@,
        DnsExchangeOutcomeView::Timeout => "Timed out"@,
    }
}

fn exchange_outcome_label(outcome: &DnsExchangeOutcome, query_type: DnsQueryType) -> (result:
    String)
    ensures
        result@ == exchange_text(outcome.deep_view(), query_type),
        text::inert(result@),
{
    proof {
        reveal_strlit("Transport error");
        reveal_strlit("Protocol error");
        reveal_strlit("Timed out");
    }
    match outcome {
        DnsExchangeOutcome::Response { response_code, addresses, aliases, truncated } => {
            assert(addresses.deep_view() =~= addresses@);
            dns_attempt_response_label(*response_code, addresses, aliases, *truncated, query_type)
        },
        DnsExchangeOutcome::TransportError { .. } => "Transport error".to_owned(),
        DnsExchangeOutcome::ProtocolError => "Protocol error".to_owned(),
        DnsExchangeOutcome::Timeout => "Timed out".to_owned(),
    }
}

/// An outcome with the time that it took, unless no time was seen to pass.
pub open spec fn with_timing(outcome: Seq<char>, duration: Duration) -> Seq<char> {
    if duration.span() == 0 {
        outcome
    } else {
        outcome + ", "@ + presentation::duration_text(duration)
    }
}

fn attach_timing(outcome: String, duration: Duration) -> (result: String)
    ensures
        result@ == with_timing(outcome@, duration),
        text::inert(outcome@) ==> text::inert(result@),
{
    proof {
        reveal_strlit(", ");
    }
    if duration.is_zero() {
        outcome
    } else {
        text::join3(outcome.as_str(), ", ", human_duration(duration).as_str())
    }
}

/// What came out of a DNS exchange of the system resolver, and how long it took.
pub open spec fn exchange_summary(exchange: DnsExchangeObservationView) -> Seq<char> {
    with_timing(
        exchange_text(exchange.outcome, exchange.query_type),
        exchange.timing.completed_at.less(exchange.timing.started_at),
    )
}

pub(crate) fn formal_exchange_summary(exchange: &DnsExchangeObservation) -> (result: String)
    ensures
        result@ == exchange_summary(exchange.deep_view()),
        text::inert(result@),
{
    let outcome = exchange_outcome_label(&exchange.outcome, exchange.query_type);
    attach_timing(outcome, exchange.timing.duration())
}

/// The query type of a direct DNS attempt.
pub open spec fn queried(kind: AttemptKind) -> Option<DnsQueryType> {
    match kind {
        AttemptKind::DnsUdp { query_type } => Some(query_type),
        AttemptKind::DnsTcp { query_type } => Some(query_type),
        _ => None,
    }
}

fn query_type_of(kind: AttemptKind) -> (result: Option<DnsQueryType>)
    ensures
        result == queried(kind),
{
    match kind {
        AttemptKind::DnsUdp { query_type } => Some(query_type),
        AttemptKind::DnsTcp { query_type } => Some(query_type),
        _ => None,
    }
}

/// What came out of a direct DNS attempt.
pub open spec fn attempt_text(outcome: DnsAttemptResultView, query_type: DnsQueryType) -> Seq<
    char,
> {
    match outcome {
        DnsAttemptResultView::Response { response_code, addresses, aliases, truncated } =>
            response_text(
                model::response_code_of(response_code),
                addresses,
                aliases,
                truncated,
                query_type,
            ),
        DnsAttemptResultView::TransportError { .. } => "Transport error"@,
        DnsAttemptResultView::ProtocolError => "Protocol error"@,
        DnsAttemptResultView::Timeout => "Timed out"@,
    }
}

/// What came out of a direct DNS attempt, and how long it took.
pub open spec fn attempt_summary(attempt: AttemptView) -> Seq<char> {
    match (attempt.outcome, queried(attempt.kind)) {
        (AttemptOutcomeView::Dns(outcome), Some(query_type)) => with_timing(
            attempt_text(outcome, query_type),
            attempt.timing.completed_at.less(attempt.timing.started_at),
        ),
        _ => "Unexpected attempt type"@,
    }
}

fn diagnostic_attempt_summary(attempt: &Attempt) -> (result: String)
    ensures
        result@ == attempt_summary(attempt.deep_view()),
        text::inert(result@),
{
    proof {
        reveal_strlit("Unexpected attempt type");
        reveal_strlit("Transport error");
        reveal_strlit("Protocol error");
        reveal_strlit("Timed out");
    }
    let query_type = match query_type_of(attempt.kind) {
        Some(query_type) => query_type,
        None => {
            return "Unexpected attempt type".to_owned();
        },
    };
    let label = match &attempt.outcome {
        AttemptOutcome::Dns(
            DnsAttemptResult::Response { response_code, addresses, aliases, truncated },
        ) => {
            assert(addresses.deep_view() =~= addresses@);
            dns_attempt_response_label(
                DnsResponseCode::from(*response_code),
                addresses,
                aliases,
                *truncated,
                query_type,
            )
        },
        AttemptOutcome::Dns(DnsAttemptResult::TransportError { .. }) =>
            "Transport error".to_owned(),
        AttemptOutcome::Dns(DnsAttemptResult::ProtocolError) => "Protocol error".to_owned(),
        AttemptOutcome::Dns(DnsAttemptResult::Timeout) => "Timed out".to_owned(),
        _ => {
            return "Unexpected attempt type".to_owned();
        },
    };
    attach_timing(label, attempt.timing.duration())
}

/// Whether an exchange served the lookup itself.
pub open spec fn is_formal(exchange: DnsExchangeObservationView) -> bool {
    exchange.purpose == DnsExchangePurpose::FormalResolution
}

/// The DNS exchanges of the system resolver that served the lookup itself.
pub open spec fn formal_of_steps(steps: Seq<NameResolutionStepView>) -> Seq<
    DnsExchangeObservationView,
>
    decreases steps.len(),
{
    if steps.len() == 0 {
        Seq::empty()
    } else if steps.last().source == NameResolutionSource::Dns {
        formal_of_steps(steps.drop_last()) + steps.last().dns_exchanges.filter(
            |exchange: DnsExchangeObservationView| is_formal(exchange),
        )
    } else {
        formal_of_steps(steps.drop_last())
    }
}

/// The DNS exchanges that served the lookup of a run.
pub open spec fn formal_of(completed: CompletedDiagnosticView) -> Seq<DnsExchangeObservationView> {
    match completed.system_resolver {
        Some(observation) => formal_of_steps(observation.name_resolution.steps),
        None => Seq::empty(),
    }
}

fn append_formal(
    collected: &mut Vec<DnsExchangeObservation>,
    exchanges: &Vec<DnsExchangeObservation>,
)
    ensures
        final(collected).deep_view() == old(collected).deep_view()
            + exchanges.deep_view().filter(
            |exchange: DnsExchangeObservationView| is_formal(exchange),
        ),
{
    let ghost all = exchanges.deep_view();
    let ghost before = collected.deep_view();
    let ghost formal = |exchange: DnsExchangeObservationView| is_formal(exchange);
    let mut i: usize = 0;
    proof {
        lists::lemma_filter_empty(all, formal);
        assert(before + all.take(0).filter(formal) =~= before);
    }
    while i < exchanges.len()
        invariant
            i <= exchanges.len(),
            all == exchanges.deep_view(),
            formal == (|exchange: DnsExchangeObservationView| is_formal(exchange)),
            collected.deep_view() == before + all.take(i as int).filter(formal),
        decreases exchanges.len() - i,
    {
        proof {
            lists::lemma_filter_step(all, i as int, formal);
        }
        let ghost reached = collected.deep_view();
        if exchanges[i].purpose == DnsExchangePurpose::FormalResolution {
            collected.push(exchanges[i].clone());
            assert(collected.deep_view() =~= reached.push(all[i as int]));
            assert(collected.deep_view() =~= before + all.take(i + 1).filter(formal));
        }
        i += 1;
    }
    assert(all.take(i as int) =~= all);
}

pub(crate) fn formal_exchanges(completed: &CompletedDiagnostic) -> (result: Vec<
    DnsExchangeObservation,
>)
    ensures
        result.deep_view() == formal_of(completed.deep_view()),
{
    let mut result: Vec<DnsExchangeObservation> = Vec::new();
    assert(result.deep_view() =~= Seq::empty());
    if let Some(observation) = &completed.system_resolver {
        let steps = &observation.name_resolution.steps;
        let ghost all = steps.deep_view();
        let mut i: usize = 0;
        while i < steps.len()
            invariant
                i <= steps.len(),
                all == steps.deep_view(),
                result.deep_view() == formal_of_steps(all.take(i as int)),
            decreases steps.len() - i,
        {
            assert(all.take(i + 1).drop_last() =~= all.take(i as int));
            if steps[i].source == NameResolutionSource::Dns {
                append_formal(&mut result, &steps[i].dns_exchanges);
            }
            i += 1;
        }
        assert(all.take(i as int) =~= all);
    }
    result
}

/// The attempts of all resolver diagnostics, in order.
pub open spec fn attempts_of(diagnostics: Seq<ResolverDependencyDiagnosticView>) -> Seq<
    AttemptView,
>
    decreases diagnostics.len(),
{
    if diagnostics.len() == 0 {
        Seq::empty()
    } else {
        attempts_of(diagnostics.drop_last()) + diagnostics.last().attempts
    }
}

fn append_attempts(collected: &mut Vec<Attempt>, attempts: &Vec<Attempt>)
    ensures
        final(collected).deep_view() == old(collected).deep_view() + attempts.deep_view(),
{
    let ghost all = attempts.deep_view();
    let ghost before = collected.deep_view();
    let mut i: usize = 0;
    assert(before + all.take(0) =~= before);
    while i < attempts.len()
        invariant
            i <= attempts.len(),
            all == attempts.deep_view(),
            collected.deep_view() == before + all.take(i as int),
        decreases attempts.len() - i,
    {
        let ghost reached = collected.deep_view();
        collected.push(attempts[i].clone());
        assert(collected.deep_view() =~= reached.push(all[i as int]));
        assert(before + all.take(i + 1) =~= reached.push(all[i as int]));
        i += 1;
    }
    assert(all.take(i as int) =~= all);
}

pub(crate) fn diagnostic_attempts(completed: &CompletedDiagnostic) -> (result: Vec<Attempt>)
    ensures
        result.deep_view() == attempts_of(completed.deep_view().resolver_diagnostics),
{
    let diagnostics = &completed.resolver_diagnostics;
    let ghost all = diagnostics.deep_view();
    let mut result: Vec<Attempt> = Vec::new();
    assert(result.deep_view() =~= Seq::empty());
    let mut i: usize = 0;
    while i < diagnostics.len()
        invariant
            i <= diagnostics.len(),
            all == diagnostics.deep_view(),
            result.deep_view() == attempts_of(all.take(i as int)),
        decreases diagnostics.len() - i,
    {
        assert(all.take(i + 1).drop_last() =~= all.take(i as int));
        append_attempts(&mut result, &diagnostics[i].attempts);
        i += 1;
    }
    assert(all.take(i as int) =~= all);
    result
}

/// Whether an attempt belongs to the diagnosis of a resolver.
pub open spec fn is_diagnostic(completed: CompletedDiagnosticView, id: AttemptId) -> bool {
    exists|i: int|
        0 <= i < attempts_of(completed.resolver_diagnostics).len() && (
        #[trigger] attempts_of(completed.resolver_diagnostics)[i]).id == id
}

pub(crate) fn is_diagnostic_attempt(completed: &CompletedDiagnostic, id: AttemptId) -> (result:
    bool)
    ensures
        result == is_diagnostic(completed.deep_view(), id),
{
    let attempts = diagnostic_attempts(completed);
    let ghost all = attempts.deep_view();
    let mut i: usize = 0;
    while i < attempts.len()
        invariant
            i <= attempts.len(),
            all == attempts.deep_view(),
            all == attempts_of(completed.deep_view().resolver_diagnostics),
            forall|j: int| 0 <= j < i ==> (#[trigger] all[j]).id != id,
        decreases attempts.len() - i,
    {
        if attempts[i].id == id {
            assert(all[i as int].id == id);
            return true;
        }
        i += 1;
    }
    false
}

pub(crate) fn diagnostic_dns_ran(completed: &CompletedDiagnostic) -> (result: bool)
    ensures
        result == (attempts_of(completed.deep_view().resolver_diagnostics).len() > 0),
{
    let attempts = diagnostic_attempts(completed);
    assert(attempts.deep_view().len() == attempts.len());
    attempts.len() > 0
}

/// Whether a fact says something that the name resolution sections do not show already.
pub open spec fn is_distinct(completed: CompletedDiagnosticView, fact: EvidenceFactView) -> bool {
    completed.aggregate_outcome != AggregateOutcome::NoFormalTargets || match fact {
        EvidenceFactView::NameResolution(_) => false,
        EvidenceFactView::DnsExchange(_) => false,
        EvidenceFactView::Attempt(id) => !is_diagnostic(completed, id),
        _ => true,
    }
}

pub(crate) fn evidence_is_distinct(completed: &CompletedDiagnostic, fact: &EvidenceFact) -> (result:
    bool)
    ensures
        result == is_distinct(completed.deep_view(), fact.deep_view()),
{
    if completed.aggregate_outcome != AggregateOutcome::NoFormalTargets {
        return true;
    }
    match fact {
        EvidenceFact::NameResolution(_) => false,
        EvidenceFact::DnsExchange(_) => false,
        EvidenceFact::Attempt(id) => !is_diagnostic_attempt(completed, *id),
        _ => true,
    }
}

/// The address and the port of the server of an exchange.
pub open spec fn exchange_server(exchange: DnsExchangeObservationView) -> Seq<char> {
    exchange.endpoint.address.shown() + ":"@ + text::decimal(exchange.endpoint.port as nat)
}

/// The servers of a sequence of exchanges, each once, in the order of their first exchange.
pub open spec fn servers_of(exchanges: Seq<DnsExchangeObservationView>) -> Seq<Seq<char>>
    decreases exchanges.len(),
{
    if exchanges.len() == 0 {
        Seq::empty()
    } else {
        text::with_new(servers_of(exchanges.drop_last()), exchange_server(exchanges.last()))
    }
}

pub(crate) fn distinct_endpoints(exchanges: &Vec<DnsExchangeObservation>) -> (result: Vec<String>)
    ensures
        result.deep_view() == servers_of(exchanges.deep_view()),
        text::all_inert(result.deep_view()),
{
    let ghost all = exchanges.deep_view();
    let mut result: Vec<String> = Vec::new();
    assert(result.deep_view() =~= Seq::empty());
    let mut i: usize = 0;
    while i < exchanges.len()
        invariant
            i <= exchanges.len(),
            all == exchanges.deep_view(),
            result.deep_view() == servers_of(all.take(i as int)),
            text::all_inert(result.deep_view()),
        decreases exchanges.len() - i,
    {
        proof {
            reveal_strlit(":");
        }
        let endpoint = exchanges[i].endpoint;
        let address = endpoint.address.to_text();
        let port = text::decimal_text(endpoint.port as u64);
        text::push_new(&mut result, text::join3(address.as_str(), ":", port.as_str()));
        assert(all.take(i + 1).drop_last() =~= all.take(i as int));
        i += 1;
    }
    assert(all.take(i as int) =~= all);
    result
}

/// The names that a sequence of exchanges asked for, each once and without final dots.
pub open spec fn names_of(exchanges: Seq<DnsExchangeObservationView>) -> Seq<Seq<char>>
    decreases exchanges.len(),
{
    if exchanges.len() == 0 {
        Seq::empty()
    } else {
        text::with_new(
            names_of(exchanges.drop_last()),
            text::trim_end(exchanges.last().query_name, '.'),
        )
    }
}

fn distinct_query_names(exchanges: &Vec<DnsExchangeObservation>) -> (result: Vec<String>)
    ensures
        result.deep_view() == names_of(exchanges.deep_view()),
{
    let ghost all = exchanges.deep_view();
    let mut result: Vec<String> = Vec::new();
    assert(result.deep_view() =~= Seq::empty());
    let mut i: usize = 0;
    while i < exchanges.len()
        invariant
            i <= exchanges.len(),
            all == exchanges.deep_view(),
            result.deep_view() == names_of(all.take(i as int)),
        decreases exchanges.len() - i,
    {
        text::push_new(&mut result, text::trimmed_end(exchanges[i].query_name.as_str(), '.'));
        assert(all.take(i + 1).drop_last() =~= all.take(i as int));
        i += 1;
    }
    assert(all.take(i as int) =~= all);
    result
}

/// The last exchange that asked for a query type.
pub open spec fn decisive(exchanges: Seq<DnsExchangeObservationView>, query_type: DnsQueryType) ->
    Option<DnsExchangeObservationView>
    decreases exchanges.len(),
{
    if exchanges.len() == 0 {
        None
    } else if exchanges.last().query_type == query_type {
        Some(exchanges.last())
    } else {
        decisive(exchanges.drop_last(), query_type)
    }
}

fn decisive_exchange(exchanges: &Vec<DnsExchangeObservation>, query_type: DnsQueryType) -> (result:
    Option<&DnsExchangeObservation>)
    ensures
        match result {
            Some(exchange) => decisive(exchanges.deep_view(), query_type) == Some(
                exchange.deep_view(),
            ),
            None => decisive(exchanges.deep_view(), query_type) is None,
        },
{
    let ghost all = exchanges.deep_view();
    let mut i: usize = exchanges.len();
    assert(all.take(i as int) =~= all);
    while i > 0
        invariant
            i <= exchanges.len(),
            all == exchanges.deep_view(),
            decisive(all, query_type) == decisive(all.take(i as int), query_type),
        decreases i,
    {
        assert(all.take(i as int).drop_last() =~= all.take(i - 1));
        i -= 1;
        if exchanges[i].query_type == query_type {
            return Some(&exchanges[i]);
        }
    }
    None
}

/// The resolver and the name that an attempt asked, where it asked one.
pub open spec fn resolver_asked(subject: AttemptSubjectView) -> Option<(Seq<char>, Seq<char>)> {
    match subject {
        AttemptSubjectView::Resolver { endpoint, query_name } => Some(
            (endpoint.shown(), query_name),
        ),
        _ => None,
    }
}

/// The servers of a sequence of direct attempts, each once.
pub open spec fn attempt_servers(attempts: Seq<AttemptView>) -> Seq<Seq<char>>
    decreases attempts.len(),
{
    if attempts.len() == 0 {
        Seq::empty()
    } else {
        match resolver_asked(attempts.last().subject) {
            Some(asked) => text::with_new(attempt_servers(attempts.drop_last()), asked.0),
            None => attempt_servers(attempts.drop_last()),
        }
    }
}

fn distinct_diagnostic_endpoints(attempts: &Vec<Attempt>) -> (result: Vec<String>)
    ensures
        result.deep_view() == attempt_servers(attempts.deep_view()),
        text::all_inert(result.deep_view()),
{
    let ghost all = attempts.deep_view();
    let mut result: Vec<String> = Vec::new();
    assert(result.deep_view() =~= Seq::empty());
    let mut i: usize = 0;
    while i < attempts.len()
        invariant
            i <= attempts.len(),
            all == attempts.deep_view(),
            result.deep_view() == attempt_servers(all.take(i as int)),
            text::all_inert(result.deep_view()),
        decreases attempts.len() - i,
    {
        assert(all.take(i + 1).drop_last() =~= all.take(i as int));
        if let AttemptSubject::Resolver { endpoint, .. } = &attempts[i].subject {
            text::push_new(&mut result, endpoint.to_text());
        }
        i += 1;
    }
    assert(all.take(i as int) =~= all);
    result
}

/// The names that a sequence of direct attempts asked for, each once and without final dots.
pub open spec fn attempt_names(attempts: Seq<AttemptView>) -> Seq<Seq<char>>
    decreases attempts.len(),
{
    if attempts.len() == 0 {
        Seq::empty()
    } else {
        match resolver_asked(attempts.last().subject) {
            Some(asked) => text::with_new(
                attempt_names(attempts.drop_last()),
                text::trim_end(asked.1, '.'),
            ),
            None => attempt_names(attempts.drop_last()),
        }
    }
}

fn distinct_diagnostic_query_names(attempts: &Vec<Attempt>) -> (result: Vec<String>)
    ensures
        result.deep_view() == attempt_names(attempts.deep_view()),
{
    let ghost all = attempts.deep_view();
    let mut result: Vec<String> = Vec::new();
    assert(result.deep_view() =~= Seq::empty());
    let mut i: usize = 0;
    while i < attempts.len()
        invariant
            i <= attempts.len(),
            all == attempts.deep_view(),
            result.deep_view() == attempt_names(all.take(i as int)),
        decreases attempts.len() - i,
    {
        assert(all.take(i + 1).drop_last() =~= all.take(i as int));
        if let AttemptSubject::Resolver { query_name, .. } = &attempts[i].subject {
            text::push_new(&mut result, text::trimmed_end(query_name.as_str(), '.'));
        }
        i += 1;
    }
    assert(all.take(i as int) =~= all);
    result
}

/// The last direct attempt that asked for a query type.
pub open spec fn decisive_attempt(attempts: Seq<AttemptView>, query_type: DnsQueryType) -> Option<
    AttemptView,
>
    decreases attempts.len(),
{
    if attempts.len() == 0 {
        None
    } else if queried(attempts.last().kind) == Some(query_type) {
        Some(attempts.last())
    } else {
        decisive_attempt(attempts.drop_last(), query_type)
    }
}

fn decisive_diagnostic_attempt(attempts: &Vec<Attempt>, query_type: DnsQueryType) -> (result:
    Option<&Attempt>)
    ensures
        match result {
            Some(attempt) => decisive_attempt(attempts.deep_view(), query_type) == Some(
                attempt.deep_view(),
            ),
            None => decisive_attempt(attempts.deep_view(), query_type) is None,
        },
{
    let ghost all = attempts.deep_view();
    let mut i: usize = attempts.len();
    assert(all.take(i as int) =~= all);
    while i > 0
        invariant
            i <= attempts.len(),
            all == attempts.deep_view(),
            decisive_attempt(all, query_type) == decisive_attempt(all.take(i as int), query_type),
        decreases i,
    {
        assert(all.take(i as int).drop_last() =~= all.take(i - 1));
        i -= 1;
        if let Some(asked) = query_type_of(attempts[i].kind) {
            if asked == query_type {
                return Some(&attempts[i]);
            }
        }
    }
    None
}

/// A report with the servers of a list in one field, under a label for one or for several.
pub open spec fn with_servers(
    report: Seq<char>,
    theme: Theme,
    servers: Seq<Seq<char>>,
    one: Seq<char>,
    several: Seq<char>,
) -> Seq<char> {
    if servers.len() == 0 {
        report
    } else if servers.len() == 1 {
        presentation::with_field(report, theme, one, servers[0])
    } else {
        presentation::with_field(report, theme, several, text::joined(servers, ", "@))
    }
}

pub(crate) fn server_field(
    output: &mut String,
    theme: Theme,
    servers: &Vec<String>,
    one: &str,
    several: &str,
)
    ensures
        final(output)@ == with_servers(old(output)@, theme, servers.deep_view(), one@, several@),
        safety::safe(old(output)@, theme.styled) && text::all_inert(servers.deep_view())
            && text::inert(one@) && text::inert(several@)
            ==> safety::safe(final(output)@, theme.styled),
{
    proof {
        reveal_strlit(", ");
    }
    if servers.len() == 1 {
        field(output, theme, one, servers[0].as_str());
    } else if servers.len() > 1 {
        field(output, theme, several, text::join_all(servers, ", ").as_str());
    }
}

/// A report with the names that were asked for, beside the name that was given where they are not
/// the same.
pub open spec fn with_queries(
    report: Seq<char>,
    theme: Theme,
    names: Seq<Seq<char>>,
    input_name: Seq<char>,
) -> Seq<char> {
    let input = text::trim_end(input_name, '.');
    if names.len() == 0 {
        report
    } else if names == seq![input] {
        presentation::with_field(report, theme, "Query"@, presentation::terminal_text(input))
    } else {
        presentation::with_field(
            presentation::with_field(
                report,
                theme,
                "Input"@,
                presentation::terminal_text(input_name),
            ),
            theme,
            "Query"@,
            presentation::terminal_text(text::joined(names, ", "@)),
        )
    }
}

fn query_fields(output: &mut String, theme: Theme, names: &Vec<String>, input_name: &str)
    ensures
        final(output)@ == with_queries(old(output)@, theme, names.deep_view(), input_name@),
        safety::safe(old(output)@, theme.styled) ==> safety::safe(final(output)@, theme.styled),
{
    proof {
        reveal_strlit("Query");
        reveal_strlit("Input");
        reveal_strlit(", ");
    }
    if names.len() == 0 {
        return;
    }
    let input = text::trimmed_end(input_name, '.');
    let ghost all = names.deep_view();
    assert(all.len() == names.len());
    assert(all[0] == names[0]@);
    if names.len() == 1 && text::same_text(names[0].as_str(), input.as_str()) {
        assert(all =~= seq![input@]);
        field(output, theme, "Query", terminal_escape(input.as_str()).as_str());
    } else {
        assert(all != seq![input@]) by {
            if all == seq![input@] {
                assert(all.len() == 1);
                assert(all[0] == input@);
            }
        }
        field(output, theme, "Input", terminal_escape(input_name).as_str());
        let listed = text::join_all(names, ", ");
        field(output, theme, "Query", terminal_escape(listed.as_str()).as_str());
    }
}

/// A report with the decisive exchange for a query type.
pub open spec fn with_exchange(
    report: Seq<char>,
    theme: Theme,
    exchanges: Seq<DnsExchangeObservationView>,
    query_type: DnsQueryType,
) -> Seq<char> {
    match decisive(exchanges, query_type) {
        Some(exchange) => presentation::with_field(
            report,
            theme,
            query_type_text(query_type),
            exchange_summary(exchange),
        ),
        None => report,
    }
}

fn exchange_field(
    output: &mut String,
    theme: Theme,
    exchanges: &Vec<DnsExchangeObservation>,
    query_type: DnsQueryType,
)
    ensures
        final(output)@ == with_exchange(old(output)@, theme, exchanges.deep_view(), query_type),
        safety::safe(old(output)@, theme.styled) ==> safety::safe(final(output)@, theme.styled),
{
    if let Some(exchange) = decisive_exchange(exchanges, query_type) {
        let summary = formal_exchange_summary(exchange);
        field(output, theme, dns_query_type_label(query_type), summary.as_str());
    }
}

/// A report with the decisive direct attempt for a query type.
pub open spec fn with_attempt(
    report: Seq<char>,
    theme: Theme,
    attempts: Seq<AttemptView>,
    query_type: DnsQueryType,
) -> Seq<char> {
    match decisive_attempt(attempts, query_type) {
        Some(attempt) => presentation::with_field(
            report,
            theme,
            query_type_text(query_type),
            attempt_summary(attempt),
        ),
        None => report,
    }
}

fn attempt_field(
    output: &mut String,
    theme: Theme,
    attempts: &Vec<Attempt>,
    query_type: DnsQueryType,
)
    ensures
        final(output)@ == with_attempt(old(output)@, theme, attempts.deep_view(), query_type),
        safety::safe(old(output)@, theme.styled) ==> safety::safe(final(output)@, theme.styled),
{
    if let Some(attempt) = decisive_diagnostic_attempt(attempts, query_type) {
        let summary = diagnostic_attempt_summary(attempt);
        field(output, theme, dns_query_type_label(query_type), summary.as_str());
    }
}

/// A report with what limits the observation of a lookup.
pub open spec fn with_notes(report: Seq<char>, theme: Theme, limitations: Seq<Seq<char>>) -> Seq<
    char,
>
    decreases limitations.len(),
{
    if limitations.len() == 0 {
        report
    } else {
        presentation::with_field(
            with_notes(report, theme, limitations.drop_last()),
            theme,
            "Note"@,
            presentation::terminal_text(limitations.last()),
        )
    }
}

fn note_fields(output: &mut String, theme: Theme, limitations: &Vec<String>)
    ensures
        final(output)@ == with_notes(old(output)@, theme, limitations.deep_view()),
        safety::safe(old(output)@, theme.styled) ==> safety::safe(final(output)@, theme.styled),
{
    let ghost all = limitations.deep_view();
    let ghost before = output@;
    let mut i: usize = 0;
    while i < limitations.len()
        invariant
            i <= limitations.len(),
            all == limitations.deep_view(),
            output@ == with_notes(before, theme, all.take(i as int)),
            safety::safe(before, theme.styled) ==> safety::safe(output@, theme.styled),
        decreases limitations.len() - i,
    {
        proof {
            reveal_strlit("Note");
        }
        field(output, theme, "Note", terminal_escape(limitations[i].as_str()).as_str());
        assert(all.take(i + 1).drop_last() =~= all.take(i as int));
        i += 1;
    }
    assert(all.take(i as int) =~= all);
}

/// The source of the last step of a lookup.
pub open spec fn last_source(observation: NameResolutionObservationView) -> Option<
    NameResolutionSource,
> {
    if observation.steps.len() == 0 {
        None
    } else {
        Some(observation.steps.last().source)
    }
}

pub(crate) fn final_source(observation: &NameResolutionObservation) -> (result: Option<
    NameResolutionSource,
>)
    ensures
        result == last_source(observation.deep_view()),
{
    let count = observation.steps.len();
    assert(observation.steps.deep_view().len() == count);
    if count == 0 {
        None
    } else {
        Some(observation.steps[count - 1].source)
    }
}

/// A report with the section on the lookup of a name.
pub open spec fn with_lookup(
    report: Seq<char>,
    theme: Theme,
    observation: NameResolutionObservationView,
    exchanges: Seq<DnsExchangeObservationView>,
) -> Seq<char> {
    let report = presentation::with_section(report, theme, "NAME RESOLUTION"@);
    let source = last_source(observation);
    let report = match source {
        Some(source) => presentation::with_field(report, theme, "Source"@, source_text(source)),
        None => report,
    };
    let servers = servers_of(exchanges);
    let report = if servers.len() == 0 && source == Some(
        NameResolutionSource::SystemResolverOpaque,
    ) {
        presentation::with_field(
            report,
            theme,
            "Formal DNS server"@,
            "Not exposed by this platform"@,
        )
    } else {
        with_servers(report, theme, servers, "DNS server"@, "DNS servers"@)
    };
    let report = with_queries(report, theme, names_of(exchanges), observation.input_name);
    let report = with_exchange(report, theme, exchanges, DnsQueryType::A);
    let report = with_exchange(report, theme, exchanges, DnsQueryType::Aaaa);
    presentation::with_blank(with_notes(report, theme, observation.limitations))
}

fn lookup_section(
    output: &mut String,
    theme: Theme,
    observation: &NameResolutionObservation,
    exchanges: &Vec<DnsExchangeObservation>,
)
    ensures
        final(output)@ == with_lookup(
            old(output)@,
            theme,
            observation.deep_view(),
            exchanges.deep_view(),
        ),
        safety::safe(old(output)@, theme.styled) ==> safety::safe(final(output)@, theme.styled),
{
    proof {
        reveal_strlit("NAME RESOLUTION");
        reveal_strlit("Source");
        reveal_strlit("Formal DNS server");
        reveal_strlit("Not exposed by this platform");
        reveal_strlit("DNS server");
        reveal_strlit("DNS servers");
    }
    section(output, theme, "NAME RESOLUTION");
    let source = final_source(observation);
    if let Some(source) = source {
        field(output, theme, "Source", source_label(source));
    }
    let servers = distinct_endpoints(exchanges);
    assert(servers.deep_view().len() == servers.len());
    if servers.len() == 0 && matches!(source, Some(NameResolutionSource::SystemResolverOpaque)) {
        field(output, theme, "Formal DNS server", "Not exposed by this platform");
    } else {
        server_field(output, theme, &servers, "DNS server", "DNS servers");
    }
    let names = distinct_query_names(exchanges);
    query_fields(output, theme, &names, observation.input_name.as_str());
    exchange_field(output, theme, exchanges, DnsQueryType::A);
    exchange_field(output, theme, exchanges, DnsQueryType::Aaaa);
    note_fields(output, theme, &observation.limitations);
    blank(output);
}

/// A report with the section on direct DNS queries, where there were any.
pub open spec fn with_direct_queries(
    report: Seq<char>,
    theme: Theme,
    attempts: Seq<AttemptView>,
) -> Seq<char> {
    if attempts.len() == 0 {
        report
    } else {
        let report = presentation::with_section(report, theme, "DNS DIAGNOSTIC"@);
        let report = with_servers(
            report,
            theme,
            attempt_servers(attempts),
            "Server"@,
            "Servers"@,
        );
        let names = attempt_names(attempts);
        let report = if names.len() == 0 {
            report
        } else {
            presentation::with_field(
                report,
                theme,
                "Query"@,
                presentation::terminal_text(text::joined(names, ", "@)),
            )
        };
        let report = with_attempt(report, theme, attempts, DnsQueryType::A);
        let report = with_attempt(report, theme, attempts, DnsQueryType::Aaaa);
        presentation::with_blank(report)
    }
}

fn direct_query_section(output: &mut String, theme: Theme, attempts: &Vec<Attempt>)
    ensures
        final(output)@ == with_direct_queries(old(output)@, theme, attempts.deep_view()),
        safety::safe(old(output)@, theme.styled) ==> safety::safe(final(output)@, theme.styled),
{
    proof {
        reveal_strlit("DNS DIAGNOSTIC");
        reveal_strlit("Server");
        reveal_strlit("Servers");
        reveal_strlit(", ");
        reveal_strlit("Query");
    }
    assert(attempts.deep_view().len() == attempts.len());
    if attempts.len() == 0 {
        return;
    }
    section(output, theme, "DNS DIAGNOSTIC");
    let servers = distinct_diagnostic_endpoints(attempts);
    server_field(output, theme, &servers, "Server", "Servers");
    let names = distinct_diagnostic_query_names(attempts);
    assert(names.deep_view().len() == names.len());
    if names.len() > 0 {
        let listed = text::join_all(&names, ", ");
        field(output, theme, "Query", terminal_escape(listed.as_str()).as_str());
    }
    attempt_field(output, theme, attempts, DnsQueryType::A);
    attempt_field(output, theme, attempts, DnsQueryType::Aaaa);
    blank(output);
}

/// A report with the sections on name resolution, which stand only where no address could be
/// checked.
pub open spec fn with_name_resolution(
    report: Seq<char>,
    theme: Theme,
    completed: CompletedDiagnosticView,
) -> Seq<char> {
    match completed.system_resolver {
        Some(observation) if completed.aggregate_outcome == AggregateOutcome::NoFormalTargets =>
            with_direct_queries(
            with_lookup(report, theme, observation.name_resolution, formal_of(completed)),
            theme,
            attempts_of(completed.resolver_diagnostics),
        ),
        _ => report,
    }
}

pub(crate) fn render_name_resolution_sections(
    output: &mut String,
    completed: &CompletedDiagnostic,
    theme: Theme,
)
    ensures
        final(output)@ == with_name_resolution(old(output)@, theme, completed.deep_view()),
        safety::safe(old(output)@, theme.styled) ==> safety::safe(final(output)@, theme.styled),
{
    if completed.aggregate_outcome != AggregateOutcome::NoFormalTargets {
        return;
    }
    if let Some(observation) = &completed.system_resolver {
        let exchanges = formal_exchanges(completed);
        lookup_section(output, theme, &observation.name_resolution, &exchanges);
        let attempts = diagnostic_attempts(completed);
        direct_query_section(output, theme, &attempts);
    }
}

} // verus!
