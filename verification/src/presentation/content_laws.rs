//! What a report is made of: its counts, its sentences, and the attempts and exchanges it picks.

use vstd::prelude::*;

use crate::model::{
    AttemptId, AttemptKind, AttemptView, DnsExchangeObservationView, DnsQueryType,
};
use crate::presentation::completed;
use crate::presentation::name_resolution;
use crate::presentation::report_laws;
use crate::presentation::word_laws;
use crate::result::{
    AggregateOutcome, CompletedDiagnosticView, EvidenceView, PrimaryOutcome,
    ResolverDependencyDiagnosticView, TargetDiagnosticView,
};
use crate::result_laws;
use crate::text;

verus! {

/// The targets with an outcome.
pub open spec fn with_outcome(
    targets: Seq<TargetDiagnosticView>,
    outcome: PrimaryOutcome,
) -> Seq<TargetDiagnosticView> {
    targets.filter(|target: TargetDiagnosticView| target.primary_outcome == outcome)
}

/// A report counts the targets with each outcome. Those that responded are the ones that were
/// satisfied at once or after a retry, and every target is counted once.
pub proof fn targets_are_counted_by_outcome(targets: Seq<TargetDiagnosticView>)
    ensures
        forall|outcome: PrimaryOutcome| #[trigger]
            completed::outcome_count(targets, outcome) == with_outcome(targets, outcome).len(),
        completed::eventual_count(targets) == with_outcome(targets, PrimaryOutcome::Satisfied).len()
            + with_outcome(targets, PrimaryOutcome::SatisfiedWithAnomaly).len(),
        targets.len() == with_outcome(targets, PrimaryOutcome::Satisfied).len() + with_outcome(
            targets,
            PrimaryOutcome::SatisfiedWithAnomaly,
        ).len() + with_outcome(targets, PrimaryOutcome::NotSatisfied).len() + with_outcome(
            targets,
            PrimaryOutcome::Indeterminate,
        ).len(),
    decreases targets.len(),
{
    reveal(Seq::filter);
    if targets.len() > 0 {
        targets_are_counted_by_outcome(targets.drop_last());
        assert forall|outcome: PrimaryOutcome| #[trigger]
            completed::outcome_count(targets, outcome) == with_outcome(targets, outcome).len() by {
            assert(completed::outcome_count(targets.drop_last(), outcome) == with_outcome(
                targets.drop_last(),
                outcome,
            ).len());
        }
    }
}

/// The result of a run in a few words follows from its targets: it passed where all were
/// satisfied at once, failed where none was, and was not started where there was none.
pub proof fn results_are_told_by_the_targets(run: CompletedDiagnosticView)
    requires
        result_laws::sums_up(run.aggregate_outcome, run.hostname_resolution, run.targets),
    ensures
        ({
            let shown = completed::result_text(run);
            let checked = report_laws::was_checked(run);
            &&& !checked ==> shown == "Not started"@
            &&& checked && result_laws::all_are(run.targets, PrimaryOutcome::Satisfied) ==> shown
                == "Passed"@
            &&& checked && result_laws::all_are(run.targets, PrimaryOutcome::NotSatisfied)
                ==> shown == "Failed"@
            &&& checked && result_laws::all_are(run.targets, PrimaryOutcome::Indeterminate)
                ==> shown == "Inconclusive"@
            &&& checked && result_laws::all_came_through(run.targets) && !result_laws::all_are(
                run.targets,
                PrimaryOutcome::Satisfied,
            ) ==> text::mentions(shown, "Passed after retry"@)
        }),
{
    let targets = run.targets;
    targets_are_counted_by_outcome(targets);
    if targets.len() > 0 {
        let first = targets[0];
        assert(result_laws::all_are(targets, PrimaryOutcome::Satisfied) ==> first.primary_outcome
            == PrimaryOutcome::Satisfied);
        assert(result_laws::all_are(targets, PrimaryOutcome::NotSatisfied)
            ==> first.primary_outcome == PrimaryOutcome::NotSatisfied);
        assert(result_laws::all_are(targets, PrimaryOutcome::Indeterminate)
            ==> first.primary_outcome == PrimaryOutcome::Indeterminate);
        assert(result_laws::all_came_through(targets) ==> result_laws::came_through(first));
    }
    if result_laws::all_are(targets, PrimaryOutcome::NotSatisfied) {
        lemma_uniform_count(targets, PrimaryOutcome::NotSatisfied, PrimaryOutcome::Indeterminate);
    }
    if result_laws::all_are(targets, PrimaryOutcome::Indeterminate) {
        lemma_uniform_count(targets, PrimaryOutcome::Indeterminate, PrimaryOutcome::NotSatisfied);
    }
    reveal_strlit("Passed after retry");
    reveal_strlit("Passed after retry; earlier timeout retained");
    let retried = "Passed after retry; earlier timeout retained"@;
    word_laws::lemma_mentions(retried, "Passed after retry"@, 0);
}

proof fn lemma_uniform_count(
    targets: Seq<TargetDiagnosticView>,
    outcome: PrimaryOutcome,
    other: PrimaryOutcome,
)
    requires
        result_laws::all_are(targets, outcome),
        outcome != other,
    ensures
        completed::outcome_count(targets, outcome) == targets.len(),
        completed::outcome_count(targets, other) == 0,
    decreases targets.len(),
{
    if targets.len() > 0 {
        let rest = targets.drop_last();
        assert forall|i: int| 0 <= i < rest.len() implies (
        #[trigger] rest[i]).primary_outcome == outcome by {
            assert(rest[i] == targets[i]);
        }
        assert(targets[targets.len() - 1].primary_outcome == outcome);
        lemma_uniform_count(rest, outcome, other);
    }
}

/// What a part of a text mentions, the whole mentions.
pub(crate) proof fn lemma_mentioned_within(
    front: Seq<char>,
    middle: Seq<char>,
    back: Seq<char>,
    phrase: Seq<char>,
)
    requires
        text::mentions(middle, phrase),
    ensures
        text::mentions(front + middle + back, phrase),
{
    let i = choose|i: int|
        0 <= i <= middle.len() - phrase.len() && #[trigger] middle.subrange(i, i + phrase.len())
            == phrase;
    let whole = front + middle + back;
    let place = front.len() + i;
    assert(whole.subrange(place, place + phrase.len()) =~= middle.subrange(i, i + phrase.len()));
}

/// The sentence on a single target that passed names it, and says that the connection succeeded or
/// that it replied.
pub proof fn passed_targets_are_named(run: CompletedDiagnosticView)
    requires
        run.targets.len() == 1,
    ensures
        text::mentions(
            completed::passed_line(run),
            completed::target_text(run.targets[0].target, run.request.port),
        ),
        run.request.port is Some ==> text::mentions(completed::passed_line(run), "succeeded"@),
        run.request.port is None ==> text::mentions(
            completed::passed_line(run),
            "replied to ICMP Echo"@,
        ),
{
    let target = completed::target_text(run.targets[0].target, run.request.port);
    let none = Seq::<char>::empty();
    word_laws::lemma_mentions(target, target, 0);
    if run.request.port is Some {
        let opening = "A TCP connection to "@;
        reveal_strlit("succeeded");
        reveal_strlit(" succeeded.");
        word_laws::lemma_mentions(" succeeded."@, "succeeded"@, 1);
        lemma_mentioned_within(opening, target, " succeeded."@, target);
        lemma_mentioned_within(opening + target, " succeeded."@, none, "succeeded"@);
        assert(opening + target + " succeeded."@ + none =~= completed::passed_line(run));
    } else {
        reveal_strlit("replied to ICMP Echo");
        reveal_strlit(" replied to ICMP Echo.");
        word_laws::lemma_mentions(" replied to ICMP Echo."@, "replied to ICMP Echo"@, 1);
        lemma_mentioned_within(none, target, " replied to ICMP Echo."@, target);
        assert(none + target + " replied to ICMP Echo."@ =~= completed::passed_line(run));
        lemma_mentioned_within(target, " replied to ICMP Echo."@, none, "replied to ICMP Echo"@);
        assert(target + " replied to ICMP Echo."@ + none =~= completed::passed_line(run));
    }
}

/// Whether an attempt asked for a query type.
pub open spec fn asks_for(attempt: AttemptView, query_type: DnsQueryType) -> bool {
    match attempt.kind {
        AttemptKind::DnsUdp { query_type: asked } => asked == query_type,
        AttemptKind::DnsTcp { query_type: asked } => asked == query_type,
        _ => false,
    }
}

/// Whether the exchange at a place is the last that asked for a query type.
pub open spec fn is_last_exchange(
    exchanges: Seq<DnsExchangeObservationView>,
    query_type: DnsQueryType,
    place: int,
) -> bool {
    &&& 0 <= place < exchanges.len()
    &&& exchanges[place].query_type == query_type
    &&& forall|i: int|
        place < i < exchanges.len() ==> (#[trigger] exchanges[i]).query_type != query_type
}

/// Of the exchanges for a query type the last one decides.
pub proof fn last_exchanges_decide(
    exchanges: Seq<DnsExchangeObservationView>,
    query_type: DnsQueryType,
)
    ensures
        match name_resolution::decisive(exchanges, query_type) {
            Some(exchange) => exists|place: int|
                #[trigger] is_last_exchange(exchanges, query_type, place) && exchanges[place]
                    == exchange,
            None => forall|i: int|
                0 <= i < exchanges.len() ==> (#[trigger] exchanges[i]).query_type != query_type,
        },
    decreases exchanges.len(),
{
    if exchanges.len() > 0 {
        let last = exchanges.len() - 1;
        let rest = exchanges.drop_last();
        if exchanges[last].query_type == query_type {
            assert(is_last_exchange(exchanges, query_type, last));
        } else {
            last_exchanges_decide(rest, query_type);
            assert forall|i: int| 0 <= i < last implies #[trigger] exchanges[i] == rest[i] by {}
            if let Some(exchange) = name_resolution::decisive(rest, query_type) {
                let place = choose|place: int|
                    #[trigger] is_last_exchange(rest, query_type, place) && rest[place] == exchange;
                assert(is_last_exchange(exchanges, query_type, place));
            }
        }
    }
}

/// Whether the attempt at a place is the last that asked for a query type.
pub open spec fn is_last_attempt(
    attempts: Seq<AttemptView>,
    query_type: DnsQueryType,
    place: int,
) -> bool {
    &&& 0 <= place < attempts.len()
    &&& asks_for(attempts[place], query_type)
    &&& forall|i: int|
        place < i < attempts.len() ==> !asks_for(#[trigger] attempts[i], query_type)
}

/// Of the direct attempts for a query type the last one decides.
pub proof fn last_attempts_decide(attempts: Seq<AttemptView>, query_type: DnsQueryType)
    ensures
        match name_resolution::decisive_attempt(attempts, query_type) {
            Some(attempt) => exists|place: int|
                #[trigger] is_last_attempt(attempts, query_type, place) && attempts[place]
                    == attempt,
            None => forall|i: int|
                0 <= i < attempts.len() ==> !asks_for(#[trigger] attempts[i], query_type),
        },
    decreases attempts.len(),
{
    if attempts.len() > 0 {
        let last = attempts.len() - 1;
        let rest = attempts.drop_last();
        if asks_for(attempts[last], query_type) {
            assert(is_last_attempt(attempts, query_type, last));
        } else {
            last_attempts_decide(rest, query_type);
            assert forall|i: int| 0 <= i < last implies #[trigger] attempts[i] == rest[i] by {}
            if let Some(attempt) = name_resolution::decisive_attempt(rest, query_type) {
                let place = choose|place: int|
                    #[trigger] is_last_attempt(rest, query_type, place) && rest[place] == attempt;
                assert(is_last_attempt(attempts, query_type, place));
            }
        }
    }
}

/// Whether a server is the one of some exchange.
pub open spec fn some_exchange_with(
    exchanges: Seq<DnsExchangeObservationView>,
    server: Seq<char>,
) -> bool {
    exists|i: int|
        0 <= i < exchanges.len() && server == #[trigger] exchanges[i].endpoint.address.shown()
            + ":"@ + text::decimal(exchanges[i].endpoint.port as nat)
}

/// The servers of exchanges are listed once each; a further exchange adds its own at the end, if
/// at all.
pub proof fn servers_are_listed_once(
    exchanges: Seq<DnsExchangeObservationView>,
    further: DnsExchangeObservationView,
    server: Seq<char>,
)
    ensures
        name_resolution::servers_of(exchanges).no_duplicates(),
        name_resolution::servers_of(exchanges).contains(server) <==> some_exchange_with(
            exchanges,
            server,
        ),
        name_resolution::servers_of(exchanges.push(further)).take(
            name_resolution::servers_of(exchanges).len() as int,
        ) == name_resolution::servers_of(exchanges),
    decreases exchanges.len(),
{
    let listed = name_resolution::servers_of(exchanges);
    assert(exchanges.push(further).drop_last() =~= exchanges);
    assert(name_resolution::servers_of(exchanges.push(further)).take(listed.len() as int)
        =~= listed);
    if exchanges.len() > 0 {
        let rest = exchanges.drop_last();
        let last = exchanges.len() - 1;
        let own = name_resolution::exchange_server(exchanges[last]);
        let before = name_resolution::servers_of(rest);
        servers_are_listed_once(rest, further, server);
        assert(before.push(own)[before.len() as int] == own);
        assert(before.contains(server) ==> before.push(own).contains(server)) by {
            if before.contains(server) {
                let i = choose|i: int| 0 <= i < before.len() && before[i] == server;
                assert(before.push(own)[i] == server);
            }
        }
        if some_exchange_with(rest, server) {
            let i = choose|i: int|
                0 <= i < rest.len() && server == #[trigger] rest[i].endpoint.address.shown()
                    + ":"@ + text::decimal(rest[i].endpoint.port as nat);
            assert(exchanges[i] == rest[i]);
            assert(server == exchanges[i].endpoint.address.shown() + ":"@ + text::decimal(
                exchanges[i].endpoint.port as nat,
            ));
        }
        if some_exchange_with(exchanges, server) && server != own {
            let i = choose|i: int|
                0 <= i < exchanges.len() && server
                    == #[trigger] exchanges[i].endpoint.address.shown() + ":"@ + text::decimal(
                    exchanges[i].endpoint.port as nat,
                );
            assert(rest[i] == exchanges[i]);
            assert(server == rest[i].endpoint.address.shown() + ":"@ + text::decimal(
                rest[i].endpoint.port as nat,
            ));
        }
        if server == own {
            assert(server == exchanges[last].endpoint.address.shown() + ":"@ + text::decimal(
                exchanges[last].endpoint.port as nat,
            ));
        }
    }
}

/// The direct attempts of resolvers are those of each, in order.
pub proof fn direct_attempts_are_those_of_all_resolvers(
    resolvers: Seq<ResolverDependencyDiagnosticView>,
    further: ResolverDependencyDiagnosticView,
)
    ensures
        name_resolution::attempts_of(resolvers.push(further)) == name_resolution::attempts_of(
            resolvers,
        ) + further.attempts,
        resolvers.len() == 0 ==> name_resolution::attempts_of(resolvers).len() == 0,
{
    assert(resolvers.push(further).drop_last() =~= resolvers);
}

/// Whether one of the attempts has an identifier.
pub open spec fn some_has_id(attempts: Seq<AttemptView>, id: AttemptId) -> bool {
    exists|i: int| 0 <= i < attempts.len() && (#[trigger] attempts[i]).id == id
}

/// An attempt that evidence speaks of is found by its identifier wherever there is one, and
/// nothing else is found.
pub proof fn attempts_are_found_by_their_identifier(attempts: Seq<AttemptView>, id: AttemptId)
    ensures
        completed::found_in(attempts, id) is Some <==> some_has_id(attempts, id),
        completed::found_in(attempts, id) matches Some(found) ==> found.0.id == id
            && attempts.contains(found.0),
    decreases attempts.len(),
{
    lemma_position(attempts, id);
    if let Some(index) = completed::position(attempts, id) {
        assert(attempts.contains(attempts[index as int]));
        assert(attempts[index as int].id == id);
    }
}

proof fn lemma_position(attempts: Seq<AttemptView>, id: AttemptId)
    ensures
        match completed::position(attempts, id) {
            Some(index) => index < attempts.len() && attempts[index as int].id == id,
            None => !some_has_id(attempts, id),
        },
    decreases attempts.len(),
{
    if attempts.len() > 0 {
        let rest = attempts.drop_last();
        lemma_position(rest, id);
        assert forall|i: int| 0 <= i < rest.len() implies #[trigger] attempts[i] == rest[i] by {}
        if completed::position(attempts, id) is None {
            assert forall|i: int| 0 <= i < attempts.len() implies (
            #[trigger] attempts[i]).id != id by {
                if i < rest.len() {
                    assert(rest[i].id != id);
                }
            }
        }
    }
}

/// Whether some target made the attempt with an identifier.
pub open spec fn some_target_made(targets: Seq<TargetDiagnosticView>, id: AttemptId) -> bool {
    exists|i: int| 0 <= i < targets.len() && some_has_id((#[trigger] targets[i]).attempts, id)
}

/// Whether some resolver was asked in the attempt with an identifier.
pub open spec fn some_resolver_asked(
    resolvers: Seq<ResolverDependencyDiagnosticView>,
    id: AttemptId,
) -> bool {
    exists|i: int| 0 <= i < resolvers.len() && some_has_id((#[trigger] resolvers[i]).attempts, id)
}

/// The attempts of a run are searched in its targets and its resolvers, all of them.
pub proof fn attempts_of_a_run_are_found(run: CompletedDiagnosticView, id: AttemptId)
    ensures
        completed::found(run, id) is Some <==> some_target_made(run.targets, id)
            || some_resolver_asked(run.resolver_diagnostics, id),
        completed::found(run, id) matches Some(found) ==> found.0.id == id,
{
    lemma_found_in_targets(run.targets, id);
    lemma_found_in_resolvers(run.resolver_diagnostics, id);
}

proof fn lemma_found_in_targets(targets: Seq<TargetDiagnosticView>, id: AttemptId)
    ensures
        completed::found_in_targets(targets, id) is Some <==> some_target_made(targets, id),
        completed::found_in_targets(targets, id) matches Some(found) ==> found.0.id == id,
    decreases targets.len(),
{
    if targets.len() > 0 {
        let rest = targets.drop_last();
        let last = targets.len() - 1;
        lemma_found_in_targets(rest, id);
        attempts_are_found_by_their_identifier(targets[last].attempts, id);
        if some_target_made(rest, id) {
            let i = choose|i: int|
                0 <= i < rest.len() && some_has_id((#[trigger] rest[i]).attempts, id);
            assert(some_has_id(targets[i].attempts, id));
        }
        if some_target_made(targets, id) && !some_has_id(targets[last].attempts, id) {
            let i = choose|i: int|
                0 <= i < targets.len() && some_has_id((#[trigger] targets[i]).attempts, id);
            assert(some_has_id(rest[i].attempts, id));
        }
    }
}

proof fn lemma_found_in_resolvers(
    resolvers: Seq<ResolverDependencyDiagnosticView>,
    id: AttemptId,
)
    ensures
        completed::found_in_resolvers(resolvers, id) is Some <==> some_resolver_asked(
            resolvers,
            id,
        ),
        completed::found_in_resolvers(resolvers, id) matches Some(found) ==> found.0.id == id,
    decreases resolvers.len(),
{
    if resolvers.len() > 0 {
        let rest = resolvers.drop_last();
        let last = resolvers.len() - 1;
        lemma_found_in_resolvers(rest, id);
        attempts_are_found_by_their_identifier(resolvers[last].attempts, id);
        if some_resolver_asked(rest, id) {
            let i = choose|i: int|
                0 <= i < rest.len() && some_has_id((#[trigger] rest[i]).attempts, id);
            assert(some_has_id(resolvers[i].attempts, id));
        }
        if some_resolver_asked(resolvers, id) && !some_has_id(resolvers[last].attempts, id) {
            let i = choose|i: int|
                0 <= i < resolvers.len() && some_has_id((#[trigger] resolvers[i]).attempts, id);
            assert(some_has_id(rest[i].attempts, id));
        }
    }
}

/// Evidence is shown exactly where a run was no clean success, and what every sentence of it says
/// is taken from the key evidence.
pub proof fn clean_successes_show_no_evidence(run: CompletedDiagnosticView)
    ensures
        run.aggregate_outcome == AggregateOutcome::AllSatisfied ==> completed::shown_evidence(
            run,
        ).len() == 0,
        run.aggregate_outcome != AggregateOutcome::AllSatisfied && run.aggregate_outcome
            != AggregateOutcome::NoFormalTargets ==> completed::shown_evidence(run).len()
            == run.key_evidence.len(),
{
    if run.aggregate_outcome != AggregateOutcome::AllSatisfied && run.aggregate_outcome
        != AggregateOutcome::NoFormalTargets {
        lemma_all_evidence_is_shown(run, run.key_evidence);
    }
}

proof fn lemma_all_evidence_is_shown(
    run: CompletedDiagnosticView,
    evidence: Seq<EvidenceView>,
)
    requires
        run.aggregate_outcome != AggregateOutcome::NoFormalTargets,
    ensures
        completed::evidence_lines(run, evidence).len() == evidence.len(),
    decreases evidence.len(),
{
    if evidence.len() > 0 {
        lemma_all_evidence_is_shown(run, evidence.drop_last());
    }
}

} // verus!
