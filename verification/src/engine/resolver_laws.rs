//! What holds of the choice of resolvers: which ones serve a name, and which of them are asked.

use vstd::prelude::*;

use crate::engine::resolver;
use crate::model::{ResolverConfigurationView, ResolverEndpointView, ResolverTransport};
use crate::text;

verus! {

/// The code of a letter without regard to its case.
pub open spec fn caseless(letter: char) -> nat {
    if 'A' <= letter <= 'Z' {
        (letter as nat - 'A' as nat + 'a' as nat) as nat
    } else {
        letter as nat
    }
}

/// Whether two names are the same but for the case of their letters.
pub open spec fn same_name(left: Seq<char>, right: Seq<char>) -> bool {
    &&& left.len() == right.len()
    &&& forall|i: int| 0 <= i < left.len() ==> caseless(#[trigger] left[i]) == caseless(right[i])
}

/// Whether a host is a domain itself or stands below it: it ends with a dot and the domain.
pub open spec fn belongs_to(host: Seq<char>, domain: Seq<char>) -> bool {
    ||| same_name(host, domain)
    ||| {
        &&& host.len() > domain.len()
        &&& host[host.len() - domain.len() - 1] == '.'
        &&& same_name(host.skip(host.len() - domain.len()), domain)
    }
}

/// Whether a name is what a configured domain names: all of it but the tildes at its start and the
/// dots at its end.
pub open spec fn is_name_in(configured: Seq<char>, name: Seq<char>) -> bool {
    exists|start: int, end: int| #[trigger] is_name_between(configured, name, start, end)
}

pub open spec fn is_name_between(
    configured: Seq<char>,
    name: Seq<char>,
    start: int,
    end: int,
) -> bool {
    &&& 0 <= start <= end <= configured.len()
    &&& name == configured.subrange(start, end)
    &&& forall|i: int| 0 <= i < start ==> #[trigger] configured[i] == '~'
    &&& forall|i: int| end <= i < configured.len() ==> #[trigger] configured[i] == '.'
    &&& start < end ==> configured[start] != '~' && configured[end - 1] != '.'
}

/// Whether a host is what an absolute or relative name means: all of it but the dots at its end.
pub open spec fn is_host_in(ascii: Seq<char>, host: Seq<char>) -> bool {
    &&& host.len() <= ascii.len()
    &&& host == ascii.take(host.len() as int)
    &&& forall|i: int| host.len() <= i < ascii.len() ==> #[trigger] ascii[i] == '.'
    &&& host.len() > 0 ==> host.last() != '.'
}

/// Whether a resolver serves a host under a domain of its own. The empty domain is the root, which
/// every host belongs to.
pub open spec fn serves_under(
    endpoint: ResolverEndpointView,
    ascii: Seq<char>,
    domain: Seq<char>,
) -> bool {
    &&& exists|i: int|
        0 <= i < endpoint.domains.len() && is_name_in(#[trigger] endpoint.domains[i], domain)
    &&& domain.len() == 0 || exists|host: Seq<char>| #[trigger]
        is_host_in(ascii, host) && belongs_to(host, domain)
}

/// Whether a resolver serves a host: it has no domains of its own, or one that the host belongs
/// to.
pub open spec fn serves(endpoint: ResolverEndpointView, ascii: Seq<char>) -> bool {
    endpoint.domains.len() == 0 || exists|domain: Seq<char>| #[trigger]
        serves_under(endpoint, ascii, domain)
}

/// Whether one resolver serves a host at least as closely as another: under a domain that is no
/// shorter. One without domains serves every host least closely.
pub open spec fn serves_as_closely(
    endpoint: ResolverEndpointView,
    other: ResolverEndpointView,
    ascii: Seq<char>,
) -> bool {
    other.domains.len() == 0 || {
        &&& endpoint.domains.len() > 0
        &&& forall|theirs: Seq<char>| #[trigger]
            serves_under(other, ascii, theirs) ==> exists|own: Seq<char>| #[trigger]
                serves_under(endpoint, ascii, own) && own.len() >= theirs.len()
    }
}

/// Whether a resolver is among those that serve a host most closely.
pub open spec fn serves_best(
    endpoints: Seq<ResolverEndpointView>,
    endpoint: ResolverEndpointView,
    ascii: Seq<char>,
) -> bool {
    &&& endpoints.contains(endpoint)
    &&& serves(endpoint, ascii)
    &&& forall|other: ResolverEndpointView| #[trigger]
        endpoints.contains(other) && serves(other, ascii) ==> serves_as_closely(
            endpoint,
            other,
            ascii,
        )
}

/// Resolvers are asked directly exactly where their transport is plain DNS and they are among
/// those whose domain comes closest to the host.
pub proof fn closest_resolvers_are_asked(
    ascii: Seq<char>,
    configuration: ResolverConfigurationView,
    endpoint: ResolverEndpointView,
)
    ensures
        resolver::plan_for(ascii, configuration).candidates.contains(endpoint) <==> (
        endpoint.transport == ResolverTransport::Udp || endpoint.transport
            == ResolverTransport::Tcp) && serves_best(configuration.endpoints, endpoint, ascii),
{
    resolver::only_best_matching_resolvers_are_asked(ascii, configuration, endpoint);
    lemma_best_score_serves_best(configuration.endpoints, endpoint, ascii);
    lemma_best_server_scores_best(configuration.endpoints, endpoint, ascii);
}

proof fn lemma_best_score_serves_best(
    endpoints: Seq<ResolverEndpointView>,
    endpoint: ResolverEndpointView,
    ascii: Seq<char>,
)
    ensures
        endpoints.contains(endpoint) && resolver::match_score(endpoint, ascii) == Some(
            resolver::best_score(endpoints, ascii),
        ) ==> serves_best(endpoints, endpoint, ascii),
{
    let best = resolver::best_score(endpoints, ascii);
    if endpoints.contains(endpoint) && resolver::match_score(endpoint, ascii) == Some(best) {
        assert(serves(endpoint, ascii)) by {
            lemma_score(endpoint, ascii);
        }
        assert forall|other: ResolverEndpointView| #[trigger]
            endpoints.contains(other) && serves(other, ascii) implies serves_as_closely(
            endpoint,
            other,
            ascii,
        ) by {
            lemma_at_most_best(endpoints, other, ascii);
            lemma_closeness(endpoint, other, ascii);
        }
    }
}

proof fn lemma_at_most_best(
    endpoints: Seq<ResolverEndpointView>,
    other: ResolverEndpointView,
    ascii: Seq<char>,
)
    requires
        endpoints.contains(other),
        serves(other, ascii),
    ensures
        resolver::match_score(other, ascii) is Some,
        resolver::match_score(other, ascii)->Some_0 <= resolver::best_score(endpoints, ascii),
{
    lemma_score(other, ascii);
    resolver::lemma_best_score(endpoints, ascii);
    let k = choose|k: int| 0 <= k < endpoints.len() && endpoints[k] == other;
    assert(resolver::match_score(endpoints[k], ascii)->Some_0 <= resolver::best_score(
        endpoints,
        ascii,
    ));
}

proof fn lemma_best_server_scores_best(
    endpoints: Seq<ResolverEndpointView>,
    endpoint: ResolverEndpointView,
    ascii: Seq<char>,
)
    ensures
        serves_best(endpoints, endpoint, ascii) ==> resolver::match_score(endpoint, ascii) == Some(
            resolver::best_score(endpoints, ascii),
        ),
{
    let best = resolver::best_score(endpoints, ascii);
    if serves_best(endpoints, endpoint, ascii) {
        lemma_at_most_best(endpoints, endpoint, ascii);
        if resolver::match_score(endpoint, ascii)->Some_0 < best {
            let i = lemma_best_is_held(endpoints, ascii);
            assert(endpoints.contains(endpoints[i]));
            assert(serves(endpoints[i], ascii)) by {
                lemma_score(endpoints[i], ascii);
            }
            lemma_closeness(endpoint, endpoints[i], ascii);
        }
    }
}

proof fn lemma_best_is_held(endpoints: Seq<ResolverEndpointView>, ascii: Seq<char>) -> (place: int)
    requires
        resolver::best_score(endpoints, ascii) > 0,
    ensures
        0 <= place < endpoints.len(),
        resolver::match_score(endpoints[place], ascii) == Some(
            resolver::best_score(endpoints, ascii),
        ),
{
    resolver::lemma_best_score(endpoints, ascii);
    choose|i: int|
        0 <= i < endpoints.len() && resolver::match_score(#[trigger] endpoints[i], ascii) == Some(
            resolver::best_score(endpoints, ascii),
        )
}

/// A resolver serves a host exactly where it has a score, and the closer it serves it the higher
/// the score is.
pub proof fn scores_follow_domains(
    endpoint: ResolverEndpointView,
    other: ResolverEndpointView,
    ascii: Seq<char>,
)
    ensures
        resolver::match_score(endpoint, ascii) is Some <==> serves(endpoint, ascii),
        serves(endpoint, ascii) && serves(other, ascii) ==> (resolver::match_score(
            endpoint,
            ascii,
        )->Some_0 >= resolver::match_score(other, ascii)->Some_0 <==> serves_as_closely(
            endpoint,
            other,
            ascii,
        )),
        endpoint.domains.len() == 0 ==> resolver::match_score(endpoint, ascii) == Some(0nat),
        forall|domain: Seq<char>| #[trigger]
            serves_under(endpoint, ascii, domain) && other.domains.len() == 0
                ==> resolver::match_score(endpoint, ascii)->Some_0 > resolver::match_score(
                other,
                ascii,
            )->Some_0,
{
    lemma_score(endpoint, ascii);
    lemma_score(other, ascii);
    if serves(endpoint, ascii) && serves(other, ascii) {
        lemma_closeness(endpoint, other, ascii);
    }
}

spec fn score_of(domain: Seq<char>) -> nat {
    if domain.len() == 0 {
        1
    } else {
        text::byte_len(text::lower(domain)) + 1
    }
}

proof fn lemma_trim_start(shown: Seq<char>, mark: char, start: int)
    requires
        0 <= start <= shown.len(),
        forall|i: int| 0 <= i < start ==> #[trigger] shown[i] == mark,
        start < shown.len() ==> shown[start] != mark,
    ensures
        text::trim_start(shown, mark) == shown.skip(start),
    decreases shown.len(),
{
    if shown.len() > 0 && shown[0] == mark {
        assert(start > 0);
        let rest = shown.drop_first();
        assert forall|i: int| 0 <= i < start - 1 implies #[trigger] rest[i] == mark by {
            assert(rest[i] == shown[i + 1]);
        }
        if start < shown.len() {
            assert(rest[start - 1] == shown[start]);
        }
        lemma_trim_start(rest, mark, start - 1);
        assert(rest.skip(start - 1) =~= shown.skip(start));
    } else {
        assert(start == 0) by {
            if start > 0 {
                assert(shown[0] == mark);
            }
        }
        assert(shown.skip(0) =~= shown);
    }
}

proof fn lemma_trim_end(shown: Seq<char>, mark: char, end: int)
    requires
        0 <= end <= shown.len(),
        forall|i: int| end <= i < shown.len() ==> #[trigger] shown[i] == mark,
        end > 0 ==> shown[end - 1] != mark,
    ensures
        text::trim_end(shown, mark) == shown.take(end),
    decreases shown.len(),
{
    if shown.len() > 0 && shown.last() == mark {
        let rest = shown.drop_last();
        assert(end < shown.len()) by {
            if end == shown.len() {
                assert(shown[end - 1] == shown.last());
            }
        }
        assert forall|i: int| end <= i < rest.len() implies #[trigger] rest[i] == mark by {
            assert(rest[i] == shown[i]);
        }
        lemma_trim_end(rest, mark, end);
        assert(rest.take(end) =~= shown.take(end));
    } else {
        assert(end == shown.len()) by {
            if end < shown.len() {
                assert(shown[shown.len() - 1] == mark);
            }
        }
        assert(shown.take(end) =~= shown);
    }
}

proof fn lemma_first_other(shown: Seq<char>, mark: char) -> (start: int)
    ensures
        0 <= start <= shown.len(),
        forall|i: int| 0 <= i < start ==> #[trigger] shown[i] == mark,
        start < shown.len() ==> shown[start] != mark,
    decreases shown.len(),
{
    if shown.len() > 0 && shown[0] == mark {
        let rest = shown.drop_first();
        let start = lemma_first_other(rest, mark);
        assert forall|i: int| 0 <= i < start + 1 implies #[trigger] shown[i] == mark by {
            if i > 0 {
                assert(rest[i - 1] == shown[i]);
            }
        }
        if start + 1 < shown.len() {
            assert(rest[start] == shown[start + 1]);
        }
        start + 1
    } else {
        0
    }
}

proof fn lemma_last_other(shown: Seq<char>, mark: char) -> (end: int)
    ensures
        0 <= end <= shown.len(),
        forall|i: int| end <= i < shown.len() ==> #[trigger] shown[i] == mark,
        end > 0 ==> shown[end - 1] != mark,
    decreases shown.len(),
{
    if shown.len() > 0 && shown.last() == mark {
        let rest = shown.drop_last();
        let end = lemma_last_other(rest, mark);
        assert forall|i: int| end <= i < shown.len() implies #[trigger] shown[i] == mark by {
            if i < rest.len() {
                assert(rest[i] == shown[i]);
            }
        }
        if end > 0 {
            assert(rest[end - 1] == shown[end - 1]);
        }
        end
    } else {
        shown.len() as int
    }
}

proof fn lemma_name(configured: Seq<char>, name: Seq<char>)
    requires
        is_name_in(configured, name),
    ensures
        resolver::domain_form(configured) == text::lower(name),
{
    let (start, end) = choose|start: int, end: int| #[trigger]
        is_name_between(configured, name, start, end);
    if start < end {
        lemma_trim_start(configured, '~', start);
        let rest = configured.skip(start);
        assert forall|i: int| end - start <= i < rest.len() implies #[trigger] rest[i] == '.' by {
            assert(rest[i] == configured[i + start]);
        }
        assert(rest[end - start - 1] == configured[end - 1]);
        lemma_trim_end(rest, '.', end - start);
        assert(rest.take(end - start) =~= name);
    } else {
        lemma_trim_start(configured, '~', start);
        let rest = configured.skip(start);
        assert forall|i: int| 0 <= i < rest.len() implies #[trigger] rest[i] == '.' by {
            assert(rest[i] == configured[i + start]);
        }
        lemma_trim_end(rest, '.', 0);
        assert(rest.take(0) =~= name);
    }
}

proof fn lemma_has_name(configured: Seq<char>) -> (name: Seq<char>)
    ensures
        is_name_in(configured, name),
{
    let start = lemma_first_other(configured, '~');
    let rest = configured.skip(start);
    let end = lemma_last_other(rest, '.');
    let name = configured.subrange(start, start + end);
    assert forall|i: int| start + end <= i < configured.len() implies #[trigger] configured[i]
        == '.' by {
        assert(rest[i - start] == configured[i]);
    }
    if end > 0 {
        assert(rest[end - 1] == configured[start + end - 1]);
    }
    assert(is_name_between(configured, name, start, start + end));
    name
}

proof fn lemma_host(ascii: Seq<char>)
    ensures
        is_host_in(ascii, text::trim_end(ascii, '.')),
        forall|host: Seq<char>| #[trigger]
            is_host_in(ascii, host) ==> host == text::trim_end(ascii, '.'),
{
    let end = lemma_last_other(ascii, '.');
    lemma_trim_end(ascii, '.', end);
    if end > 0 {
        assert(ascii.take(end).last() == ascii[end - 1]);
    }
    assert(ascii.take(end).len() == end);
    assert forall|host: Seq<char>| #[trigger] is_host_in(ascii, host) implies host
        == text::trim_end(ascii, '.') by {
        let length = host.len() as int;
        if length > 0 {
            assert(host.last() == ascii[length - 1]);
        }
        lemma_trim_end(ascii, '.', length);
    }
}

proof fn lemma_lower(left: Seq<char>, right: Seq<char>)
    ensures
        same_name(left, right) <==> text::lower(left) == text::lower(right),
{
    assert forall|letter: char| #[trigger] caseless(letter) == text::lower_letter(letter) as nat by {
    }
    if text::lower(left) == text::lower(right) {
        assert(text::lower(left).len() == text::lower(right).len());
        assert forall|i: int| 0 <= i < left.len() implies caseless(#[trigger] left[i]) == caseless(
            right[i],
        ) by {
            assert(text::lower(left)[i] == text::lower(right)[i]);
        }
    }
    if same_name(left, right) {
        assert forall|i: int| 0 <= i < left.len() implies text::lower(left)[i] == text::lower(
            right,
        )[i] by {
            assert(caseless(left[i]) == caseless(right[i]));
            assert(text::lower_letter(left[i]) as nat == text::lower_letter(right[i]) as nat);
        }
        assert(text::lower(left) =~= text::lower(right));
    }
}

proof fn lemma_belongs(host: Seq<char>, name: Seq<char>)
    requires
        name.len() > 0,
    ensures
        belongs_to(host, name) <==> text::lower(host) == text::lower(name) || text::ends_with(
            text::lower(host),
            "."@ + text::lower(name),
        ),
        belongs_to(host, name) ==> name.len() <= host.len() && text::lower(name) == text::lower(
            host,
        ).skip(host.len() - name.len()),
{
    reveal_strlit(".");
    lemma_lower(host, name);
    let lower_host = text::lower(host);
    let lower_name = text::lower(name);
    let below = "."@ + lower_name;
    if host.len() == name.len() {
        assert(lower_host.skip(0) =~= lower_host);
    }
    if host.len() > name.len() {
        let place = host.len() - name.len() - 1;
        let tail = host.skip(place + 1);
        lemma_lower(tail, name);
        assert(text::lower(tail) =~= lower_host.skip(place + 1));
        assert(lower_host[place] == text::lower_letter(host[place]));
        assert(host[place] == '.' <==> lower_host[place] == '.');
        if belongs_to(host, name) {
            assert(lower_host.skip(place) =~= below);
        }
        if text::ends_with(lower_host, below) {
            assert(lower_host.skip(place) == below);
            assert(lower_host.skip(place)[0] == below[0]);
            assert(lower_host.skip(place).skip(1) =~= lower_host.skip(place + 1));
            assert(below.skip(1) =~= lower_name);
        }
    }
}

proof fn lemma_bytes_of_tail(shown: Seq<char>, start: int)
    requires
        0 <= start <= shown.len(),
    ensures
        text::byte_len(shown.skip(start)) <= text::byte_len(shown),
        start > 0 ==> text::byte_len(shown.skip(start)) < text::byte_len(shown),
    decreases start,
{
    if start > 0 {
        let rest = shown.drop_first();
        lemma_bytes_of_tail(rest, start - 1);
        assert(rest.skip(start - 1) =~= shown.skip(start));
        assert(vstd::utf8::encode_scalar(shown[0] as u32).len() >= 1);
    } else {
        assert(shown.skip(0) =~= shown);
    }
}

proof fn lemma_domain_score(configured: Seq<char>, name: Seq<char>, ascii: Seq<char>)
    requires
        is_name_in(configured, name),
    ensures
        ({
            let covered = name.len() == 0 || belongs_to(text::trim_end(ascii, '.'), name);
            let score = resolver::domain_score(configured, resolver::host_form(ascii));
            if covered {
                score == Some(score_of(name))
            } else {
                score is None
            }
        }),
{
    lemma_name(configured, name);
    if name.len() > 0 {
        lemma_belongs(text::trim_end(ascii, '.'), name);
    }
}

proof fn lemma_best_domain(domains: Seq<Seq<char>>, host: Seq<char>)
    ensures
        forall|i: int|
            0 <= i < domains.len() && resolver::domain_score(#[trigger] domains[i], host) is Some
                ==> resolver::best_domain_score(domains, host) is Some && resolver::domain_score(
                domains[i],
                host,
            )->Some_0 <= resolver::best_domain_score(domains, host)->Some_0,
        resolver::best_domain_score(domains, host) is Some ==> exists|i: int|
            0 <= i < domains.len() && resolver::domain_score(#[trigger] domains[i], host)
                == resolver::best_domain_score(domains, host),
    decreases domains.len(),
{
    if domains.len() > 0 {
        let front = domains.drop_last();
        let last = domains.len() - 1;
        lemma_best_domain(front, host);
        assert forall|i: int| 0 <= i < front.len() implies #[trigger] domains[i] == front[i] by {}
        assert(domains[last] == domains.last());
        if resolver::best_domain_score(domains, host) is Some && resolver::domain_score(
            domains[last],
            host,
        ) != resolver::best_domain_score(domains, host) {
            let i = choose|i: int|
                0 <= i < front.len() && resolver::domain_score(#[trigger] front[i], host)
                    == resolver::best_domain_score(front, host);
            assert(resolver::domain_score(domains[i], host) == resolver::best_domain_score(
                domains,
                host,
            ));
        }
    }
}

spec fn scores(endpoint: ResolverEndpointView, ascii: Seq<char>, domain: Seq<char>) -> bool {
    &&& serves_under(endpoint, ascii, domain)
    &&& resolver::match_score(endpoint, ascii) == Some(score_of(domain))
}

proof fn lemma_score(endpoint: ResolverEndpointView, ascii: Seq<char>)
    ensures
        resolver::match_score(endpoint, ascii) is Some <==> serves(endpoint, ascii),
        endpoint.domains.len() == 0 ==> resolver::match_score(endpoint, ascii) == Some(0nat),
        endpoint.domains.len() > 0 && serves(endpoint, ascii) ==> exists|domain: Seq<char>|
            #[trigger]
            scores(endpoint, ascii, domain),
        forall|domain: Seq<char>| #[trigger]
            serves_under(endpoint, ascii, domain) ==> resolver::match_score(endpoint, ascii) is Some
                && resolver::match_score(endpoint, ascii)->Some_0 >= score_of(domain),
{
    let host = resolver::host_form(ascii);
    let domains = endpoint.domains;
    lemma_host(ascii);
    lemma_best_domain(domains, host);
    assert forall|domain: Seq<char>| #[trigger] serves_under(endpoint, ascii, domain) implies
        resolver::match_score(endpoint, ascii) is Some && resolver::match_score(
        endpoint,
        ascii,
    )->Some_0 >= score_of(domain) by {
        let i = choose|i: int|
            0 <= i < domains.len() && is_name_in(#[trigger] domains[i], domain);
        lemma_domain_score(domains[i], domain, ascii);
    }
    if domains.len() > 0 && resolver::match_score(endpoint, ascii) is Some {
        let i = choose|i: int|
            0 <= i < domains.len() && resolver::domain_score(#[trigger] domains[i], host)
                == resolver::best_domain_score(domains, host);
        let name = lemma_has_name(domains[i]);
        lemma_domain_score(domains[i], name, ascii);
        assert(is_host_in(ascii, text::trim_end(ascii, '.')));
        assert(serves_under(endpoint, ascii, name));
        assert(scores(endpoint, ascii, name));
    }
}

proof fn lemma_length_decides(
    endpoint: ResolverEndpointView,
    other: ResolverEndpointView,
    ascii: Seq<char>,
    own: Seq<char>,
    theirs: Seq<char>,
)
    requires
        serves_under(endpoint, ascii, own),
        serves_under(other, ascii, theirs),
    ensures
        own.len() >= theirs.len() <==> score_of(own) >= score_of(theirs),
{
    let host = text::trim_end(ascii, '.');
    let lowered = text::lower(host);
    lemma_host(ascii);
    if own.len() > 0 {
        lemma_belongs(host, own);
        lemma_bytes_of_tail(text::lower(own), own.len() as int);
    }
    if theirs.len() > 0 {
        lemma_belongs(host, theirs);
        lemma_bytes_of_tail(text::lower(theirs), theirs.len() as int);
    }
    if own.len() > 0 && theirs.len() > 0 {
        let first = text::lower(own);
        let second = text::lower(theirs);
        if own.len() >= theirs.len() {
            assert(first.skip(own.len() - theirs.len()) =~= second);
            lemma_bytes_of_tail(first, own.len() - theirs.len());
        } else {
            assert(second.skip(theirs.len() - own.len()) =~= first);
            lemma_bytes_of_tail(second, theirs.len() - own.len());
        }
    }
}

proof fn lemma_closeness(
    endpoint: ResolverEndpointView,
    other: ResolverEndpointView,
    ascii: Seq<char>,
)
    requires
        serves(endpoint, ascii),
        serves(other, ascii),
    ensures
        resolver::match_score(endpoint, ascii)->Some_0 >= resolver::match_score(
            other,
            ascii,
        )->Some_0 <==> serves_as_closely(endpoint, other, ascii),
{
    lemma_score(endpoint, ascii);
    lemma_score(other, ascii);
    if endpoint.domains.len() > 0 && other.domains.len() > 0 {
        let own = choose|own: Seq<char>| #[trigger] scores(endpoint, ascii, own);
        let theirs = choose|theirs: Seq<char>| #[trigger] scores(other, ascii, theirs);
        lemma_length_decides(endpoint, other, ascii, own, theirs);
        if score_of(own) >= score_of(theirs) {
            assert forall|name: Seq<char>| #[trigger] serves_under(other, ascii, name) implies exists|
                mine: Seq<char>,
            | #[trigger]
                serves_under(endpoint, ascii, mine) && mine.len() >= name.len() by {
                lemma_length_decides(endpoint, other, ascii, own, name);
                assert(serves_under(endpoint, ascii, own));
            }
        }
        if serves_as_closely(endpoint, other, ascii) {
            assert(serves_under(other, ascii, theirs));
            let mine = choose|mine: Seq<char>| #[trigger]
                serves_under(endpoint, ascii, mine) && mine.len() >= theirs.len();
            lemma_length_decides(endpoint, other, ascii, mine, theirs);
        }
    }
}

} // verus!
