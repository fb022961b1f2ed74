//! What a whole discovery comes to, whatever the servers answer.

use vstd::prelude::*;

use crate::discovery::{
    authorization_server_urls, candidates, first_step, fits_into, protected_resource_urls,
    scopes_of_metadata, urls_at, AuthorizationServerMetadata, ProtectedResourceMetadata, Reply,
    SearchState, StepState, STATUS_OK,
};
use crate::scopes::{normalized, optional_texts};
use crate::urls::{path_fits, url_path, url_with_path};
use crate::well_known::{
    authorization_server_paths, law_authorization_server_paths, law_protected_resource_paths,
    protected_resource_paths,
};

verus! {

/// What comes of a request for a metadata document.
pub enum Served<M> {
    /// No response.
    Nothing,
    /// A response, and the document that its body decodes to, if it does.
    Response { status: u16, document: Option<M> },
}

impl<M> Served<M> {
    /// What the caller reports of the request.
    pub open spec fn reply(self) -> Reply {
        match self {
            Served::Nothing => Reply::SendFailed,
            Served::Response { status, .. } => Reply::Status(status),
        }
    }

    /// What the caller reports of the body.
    pub open spec fn body(self) -> Option<M> {
        match self {
            Served::Nothing => None,
            Served::Response { document, .. } => document,
        }
    }

    /// The document of a response with status 200.
    pub open spec fn document(self) -> Option<M> {
        if self.reply() == Reply::Status(STATUS_OK) {
            self.body()
        } else {
            None
        }
    }
}

/// What is served under every URL, for either document.
pub struct Network {
    pub servers: spec_fn(Seq<char>) -> Served<AuthorizationServerMetadata>,
    pub resources: spec_fn(Seq<char>) -> Served<ProtectedResourceMetadata>,
}

impl Network {
    /// Whether `url` serves authorization server metadata with both endpoints.
    pub open spec fn has_server(self, url: Seq<char>) -> bool {
        (self.servers)(url).document() matches Some(server) && server.allows_login()
    }

    /// Whether `url` serves protected resource metadata.
    pub open spec fn has_resource(self, url: Seq<char>) -> bool {
        (self.resources)(url).document() is Some
    }
}

/// The place of the first URL from `at` on that `hit` holds of, or the number of URLs.
pub open spec fn first_hit(urls: Seq<Seq<char>>, at: int, hit: spec_fn(Seq<char>) -> bool) -> int
    decreases urls.len() - at,
{
    if at >= urls.len() {
        urls.len() as int
    } else if hit(urls[at]) {
        at
    } else {
        first_hit(urls, at + 1, hit)
    }
}

/// The URLs that are asked until `hit` holds of one.
pub open spec fn asked(urls: Seq<Seq<char>>, at: int, hit: spec_fn(Seq<char>) -> bool) -> Seq<
    Seq<char>,
> {
    let found = first_hit(urls, at, hit);
    urls.subrange(
        at,
        if found < urls.len() {
            found + 1
        } else {
            urls.len() as int
        },
    )
}

/// How much is left to do at a step.
pub open spec fn work_left(step: StepState) -> nat {
    match step {
        StepState::Finish(_) => 0,
        StepState::Get(search) => 2 * candidates_left(search),
        StepState::Read(search) => (2 * candidates_left(search) - 1) as nat,
    }
}

/// How many candidates are left to a search, its own and those of the half after it.
pub open spec fn candidates_left(search: SearchState) -> nat {
    let own = if search.at() < search.urls().len() {
        search.urls().len() - search.at()
    } else {
        0
    };
    match search {
        SearchState::Server { resource_urls, .. } => own as nat + resource_urls.len(),
        SearchState::Resource { .. } => own as nat,
    }
}

/// Whether a step asks a candidate that there is.
pub open spec fn in_range(step: StepState) -> bool {
    match step {
        StepState::Finish(_) => true,
        StepState::Get(search) => 0 <= search.at() < search.urls().len(),
        StepState::Read(search) => 0 <= search.at() < search.urls().len(),
    }
}

/// The step that follows when the caller does what `step` says and `network` answers.
pub open spec fn next(step: StepState, network: Network) -> StepState {
    match step {
        StepState::Finish(outcome) => StepState::Finish(outcome),
        StepState::Get(search) => match search {
            SearchState::Server { .. } => search.replied((network.servers)(search.url()).reply()),
            SearchState::Resource { .. } => search.replied(
                (network.resources)(search.url()).reply(),
            ),
        },
        StepState::Read(search) => match search {
            SearchState::Server { .. } => search.server_read(
                (network.servers)(search.url()).body(),
            ),
            SearchState::Resource { .. } => search.resource_read(
                (network.resources)(search.url()).body(),
            ),
        },
    }
}

/// The outcome when the caller follows the steps from `step` on.
pub open spec fn outcome(step: StepState, network: Network) -> Option<Option<Seq<Seq<char>>>>
    decreases work_left(step),
{
    match step {
        StepState::Finish(outcome) => outcome,
        _ => if in_range(step) {
            outcome(next(step, network), network)
        } else {
            None
        },
    }
}

/// The URLs that are requested when the caller follows the steps from `step` on.
pub open spec fn requests(step: StepState, network: Network) -> Seq<Seq<char>>
    decreases work_left(step),
{
    match step {
        StepState::Finish(_) => seq![],
        StepState::Read(_) => if in_range(step) {
            requests(next(step, network), network)
        } else {
            seq![]
        },
        StepState::Get(search) => if in_range(step) {
            seq![search.url()] + requests(next(step, network), network)
        } else {
            seq![]
        },
    }
}

/// The search for protected resource metadata finds the first document that is served.
proof fn lemma_resource_search(
    urls: Seq<Seq<char>>,
    at: int,
    server: AuthorizationServerMetadata,
    network: Network,
)
    requires
        0 <= at <= urls.len(),
    ensures
        ({
            let step = (SearchState::Resource { urls, at, server }).step();
            let hit = |url: Seq<char>| network.has_resource(url);
            let found = first_hit(urls, at, hit);
            &&& at <= found <= urls.len()
            &&& requests(step, network) == asked(urls, at, hit)
            &&& outcome(step, network) == scopes_of_metadata(
                server,
                if found < urls.len() {
                    (network.resources)(urls[found]).document()
                } else {
                    None
                },
            )
        }),
    decreases urls.len() - at,
{
    let search = SearchState::Resource { urls, at, server };
    let step = search.step();
    let hit = |url: Seq<char>| network.has_resource(url);
    if at < urls.len() {
        let url = urls[at];
        let served = (network.resources)(url);
        lemma_resource_search(urls, at + 1, server, network);
        let after = next(step, network);
        if served.reply() == Reply::Status(STATUS_OK) {
            assert(after == StepState::Read(search));
            let last = next(after, network);
            assert(requests(after, network) == requests(last, network));
            assert(outcome(after, network) == outcome(last, network));
        }
        if network.has_resource(url) {
            assert(hit(urls[at]));
            assert(asked(urls, at, hit) =~= seq![url]);
            assert(requests(step, network) =~= seq![url]);
        } else {
            assert(!hit(urls[at]));
            assert(asked(urls, at, hit) =~= seq![url] + asked(urls, at + 1, hit));
        }
    } else {
        assert(asked(urls, at, hit) =~= seq![]);
    }
}

/// The search for authorization server metadata finds the first usable document that is served.
proof fn lemma_server_search(
    urls: Seq<Seq<char>>,
    at: int,
    resource_urls: Seq<Seq<char>>,
    network: Network,
)
    requires
        0 <= at <= urls.len(),
    ensures
        ({
            let step = (SearchState::Server { urls, at, resource_urls }).step();
            let hit = |url: Seq<char>| network.has_server(url);
            let found = first_hit(urls, at, hit);
            &&& at <= found <= urls.len()
            &&& found < urls.len() ==> {
                let server = (network.servers)(urls[found]).document()->0;
                let rest = (SearchState::Resource { urls: resource_urls, at: 0, server }).step();
                &&& server.allows_login()
                &&& requests(step, network) == asked(urls, at, hit) + requests(rest, network)
                &&& outcome(step, network) == outcome(rest, network)
            }
            &&& found == urls.len() ==> {
                &&& requests(step, network) == asked(urls, at, hit)
                &&& outcome(step, network) is None
            }
        }),
    decreases urls.len() - at,
{
    let search = SearchState::Server { urls, at, resource_urls };
    let step = search.step();
    let hit = |url: Seq<char>| network.has_server(url);
    if at < urls.len() {
        let url = urls[at];
        let served = (network.servers)(url);
        lemma_server_search(urls, at + 1, resource_urls, network);
        let after = next(step, network);
        if served.reply() == Reply::Status(STATUS_OK) {
            assert(after == StepState::Read(search));
            let last = next(after, network);
            assert(requests(after, network) == requests(last, network));
            assert(outcome(after, network) == outcome(last, network));
        }
        if network.has_server(url) {
            assert(hit(urls[at]));
            assert(asked(urls, at, hit) =~= seq![url]);
        } else {
            assert(!hit(urls[at]));
            assert(asked(urls, at, hit) =~= seq![url] + asked(urls, at + 1, hit));
            let found = first_hit(urls, at, hit);
            if found < urls.len() {
                let server = (network.servers)(urls[found]).document()->0;
                let rest = (SearchState::Resource { urls: resource_urls, at: 0, server }).step();
                let after_url = asked(urls, at + 1, hit);
                assert(seq![url] + (after_url + requests(rest, network)) =~= seq![url] + after_url
                    + requests(rest, network));
            }
        }
    } else {
        assert(asked(urls, at, hit) =~= seq![]);
    }
}

/// A discovery reports OAuth support if and only if a candidate serves authorization server
/// metadata with both endpoints, and then the normalised scopes of the first candidate that
/// serves protected resource metadata.
pub proof fn law_discovery_outcome(
    server_urls: Seq<Seq<char>>,
    resource_urls: Seq<Seq<char>>,
    network: Network,
)
    ensures
        ({
            let server_at = first_hit(server_urls, 0, |url: Seq<char>| network.has_server(url));
            let resource_at = first_hit(
                resource_urls,
                0,
                |url: Seq<char>| network.has_resource(url),
            );
            outcome(first_step(server_urls, resource_urls), network) == if server_at
                == server_urls.len() {
                None
            } else if resource_at == resource_urls.len() {
                Some(None)
            } else {
                let resource = (network.resources)(resource_urls[resource_at]).document()->0;
                Some(normalized(optional_texts(resource.scopes_supported)))
            }
        }),
{
    lemma_server_search(server_urls, 0, resource_urls, network);
    let hit = |url: Seq<char>| network.has_server(url);
    let server_at = first_hit(server_urls, 0, hit);
    if server_at < server_urls.len() {
        let server = (network.servers)(server_urls[server_at]).document()->0;
        lemma_resource_search(resource_urls, 0, server, network);
        let resource_hit = |url: Seq<char>| network.has_resource(url);
        let resource_at = first_hit(resource_urls, 0, resource_hit);
        if resource_at < resource_urls.len() {
            lemma_first_hit_hits(resource_urls, 0, resource_hit);
        }
    }
}

/// `first_hit` gives the place of a hit, and no URL before it is one.
pub proof fn lemma_first_hit_hits(urls: Seq<Seq<char>>, at: int, hit: spec_fn(Seq<char>) -> bool)
    requires
        0 <= at <= urls.len(),
    ensures
        at <= first_hit(urls, at, hit) <= urls.len(),
        first_hit(urls, at, hit) < urls.len() ==> hit(urls[first_hit(urls, at, hit)]),
        forall|i: int| at <= i < first_hit(urls, at, hit) ==> !hit(#[trigger] urls[i]),
    decreases urls.len() - at,
{
    if at < urls.len() && !hit(urls[at]) {
        lemma_first_hit_hits(urls, at + 1, hit);
    }
}

/// The candidates are asked in order, each at most once, and none after the one that was looked
/// for; candidates for protected resource metadata are asked only where OAuth is supported.
pub proof fn law_discovery_requests(
    server_urls: Seq<Seq<char>>,
    resource_urls: Seq<Seq<char>>,
    network: Network,
)
    ensures
        ({
            let has_server = |url: Seq<char>| network.has_server(url);
            let has_resource = |url: Seq<char>| network.has_resource(url);
            let made = requests(first_step(server_urls, resource_urls), network);
            let server_at = first_hit(server_urls, 0, has_server);
            &&& made == asked(server_urls, 0, has_server) + if server_at < server_urls.len() {
                asked(resource_urls, 0, has_resource)
            } else {
                seq![]
            }
            &&& made.len() <= server_urls.len() + resource_urls.len()
        }),
{
    lemma_server_search(server_urls, 0, resource_urls, network);
    let hit = |url: Seq<char>| network.has_server(url);
    let server_at = first_hit(server_urls, 0, hit);
    let none: Seq<Seq<char>> = seq![];
    if server_at < server_urls.len() {
        let server = (network.servers)(server_urls[server_at]).document()->0;
        lemma_resource_search(resource_urls, 0, server, network);
    } else {
        assert(asked(server_urls, 0, hit) + none =~= asked(server_urls, 0, hit));
    }
}

/// Whether OAuth is supported does not depend on the protected resource metadata.
pub proof fn law_support_needs_no_scopes(
    server_urls: Seq<Seq<char>>,
    resource_urls: Seq<Seq<char>>,
    network: Network,
    other: Network,
)
    requires
        network.servers == other.servers,
    ensures
        outcome(first_step(server_urls, resource_urls), network) is Some == outcome(
            first_step(server_urls, resource_urls),
            other,
        ) is Some,
{
    law_discovery_outcome(server_urls, resource_urls, network);
    law_discovery_outcome(server_urls, resource_urls, other);
    assert((|url: Seq<char>| network.has_server(url)) =~= (|url: Seq<char>| other.has_server(url)));
}

/// A filter that everything passes keeps everything.
proof fn lemma_filter_keeps(paths: Seq<Seq<char>>, pred: spec_fn(Seq<char>) -> bool)
    requires
        forall|i: int| 0 <= i < paths.len() ==> pred(#[trigger] paths[i]),
    ensures
        paths.filter(pred) == paths,
    decreases paths.len(),
{
    reveal(Seq::filter);
    if paths.len() > 0 {
        let earlier = paths.drop_last();
        assert forall|i: int| 0 <= i < earlier.len() implies pred(#[trigger] earlier[i]) by {
            assert(earlier[i] == paths[i]);
        }
        lemma_filter_keeps(earlier, pred);
        assert(pred(paths[paths.len() - 1]));
        assert(earlier.push(paths.last()) =~= paths);
    }
}

/// Where every path fits into the URL, a document is asked for under each of them, in their order.
pub proof fn law_fitting_paths_are_all_asked(url: Seq<char>, paths: Seq<Seq<char>>)
    ensures
        (forall|i: int| 0 <= i < paths.len() ==> path_fits(url, #[trigger] paths[i]))
            ==> candidates(url, paths) == urls_at(url, paths),
{
    if forall|i: int| 0 <= i < paths.len() ==> path_fits(url, #[trigger] paths[i]) {
        lemma_filter_keeps(paths, fits_into(url));
    }
}

/// A discovery makes at most five requests, whatever the URL of the server.
pub proof fn law_discovery_asks_five_times_at_most(url: Seq<char>, network: Network)
    ensures
        requests(
            first_step(authorization_server_urls(url), protected_resource_urls(url)),
            network,
        ).len() <= 5,
{
    law_discovery_requests(authorization_server_urls(url), protected_resource_urls(url), network);
    let server_paths = authorization_server_paths(url_path(url));
    let resource_paths = protected_resource_paths(url_path(url));
    law_authorization_server_paths(url_path(url));
    law_protected_resource_paths(url_path(url));
    server_paths.lemma_filter_len(fits_into(url));
    resource_paths.lemma_filter_len(fits_into(url));
}

/// A usable authorization server is a response with status 200 whose document has both endpoints,
/// and a protected resource is one with a document of any kind.
pub proof fn law_what_is_served(network: Network, url: Seq<char>)
    ensures
        network.has_server(url) <==> match (network.servers)(url) {
            Served::Response { status, document: Some(server) } => status == 200
                && server.authorization_endpoint is Some && server.token_endpoint is Some,
            _ => false,
        },
        network.has_resource(url) <==> match (network.resources)(url) {
            Served::Response { status, document: Some(_) } => status == 200,
            _ => false,
        },
{
}

/// `first_hit` is the place of a hit that has none before it.
proof fn lemma_first_hit_is(urls: Seq<Seq<char>>, hit: spec_fn(Seq<char>) -> bool, place: int)
    requires
        0 <= place <= urls.len(),
        place < urls.len() ==> hit(urls[place]),
        forall|i: int| 0 <= i < place ==> !hit(#[trigger] urls[i]),
    ensures
        first_hit(urls, 0, hit) == place,
{
    lemma_first_hit_hits(urls, 0, hit);
}

/// Where no candidate is a usable authorization server, all of them are asked, in order, and
/// nothing else is, and no support is reported.
pub proof fn law_discovery_without_a_server(
    server_urls: Seq<Seq<char>>,
    resource_urls: Seq<Seq<char>>,
    network: Network,
)
    requires
        forall|i: int| 0 <= i < server_urls.len() ==> !network.has_server(#[trigger] server_urls[i]),
    ensures
        outcome(first_step(server_urls, resource_urls), network) is None,
        requests(first_step(server_urls, resource_urls), network) == server_urls,
{
    let hit = |url: Seq<char>| network.has_server(url);
    lemma_first_hit_is(server_urls, hit, server_urls.len() as int);
    law_discovery_outcome(server_urls, resource_urls, network);
    law_discovery_requests(server_urls, resource_urls, network);
    let none: Seq<Seq<char>> = seq![];
    assert(asked(server_urls, 0, hit) + none =~= server_urls);
}

/// Where the candidate at `server_at` is the first usable authorization server, and the one at
/// `resource_at` the first that serves protected resource metadata, or no candidate does and
/// `resource_at` is their number, the candidates up to these are asked, in order, and nothing
/// else is. Support is reported, with the scopes of that document.
pub proof fn law_discovery_reads_the_first_documents(
    server_urls: Seq<Seq<char>>,
    server_at: int,
    resource_urls: Seq<Seq<char>>,
    resource_at: int,
    network: Network,
)
    requires
        0 <= server_at < server_urls.len(),
        network.has_server(server_urls[server_at]),
        forall|i: int| 0 <= i < server_at ==> !network.has_server(#[trigger] server_urls[i]),
        0 <= resource_at <= resource_urls.len(),
        resource_at < resource_urls.len() ==> network.has_resource(resource_urls[resource_at]),
        forall|i: int| 0 <= i < resource_at ==> !network.has_resource(#[trigger] resource_urls[i]),
    ensures
        resource_at == resource_urls.len() ==> {
            &&& outcome(first_step(server_urls, resource_urls), network) == Some(
                None::<Seq<Seq<char>>>,
            )
            &&& requests(first_step(server_urls, resource_urls), network) == server_urls.take(
                server_at + 1,
            ) + resource_urls
        },
        resource_at < resource_urls.len() ==> {
            &&& (network.resources)(resource_urls[resource_at]) matches Served::Response {
                document: Some(document),
                ..
            } && outcome(first_step(server_urls, resource_urls), network) == Some(
                normalized(optional_texts(document.scopes_supported)),
            )
            &&& requests(first_step(server_urls, resource_urls), network) == server_urls.take(
                server_at + 1,
            ) + resource_urls.take(resource_at + 1)
        },
{
    let has_server = |url: Seq<char>| network.has_server(url);
    let has_resource = |url: Seq<char>| network.has_resource(url);
    lemma_first_hit_is(server_urls, has_server, server_at);
    lemma_first_hit_is(resource_urls, has_resource, resource_at);
    law_discovery_outcome(server_urls, resource_urls, network);
    law_discovery_requests(server_urls, resource_urls, network);
    assert(asked(server_urls, 0, has_server) =~= server_urls.take(server_at + 1));
    if resource_at < resource_urls.len() {
        assert(asked(resource_urls, 0, has_resource) =~= resource_urls.take(resource_at + 1));
    } else {
        assert(asked(resource_urls, 0, has_resource) =~= resource_urls);
    }
}

/// A path that fits into the URL adds the URL with that path to the candidates, behind those of
/// the paths before it, and a path that does not adds nothing.
pub proof fn law_candidates_go_path_by_path(
    url: Seq<char>,
    paths: Seq<Seq<char>>,
    path: Seq<char>,
)
    ensures
        candidates(url, seq![]) == Seq::<Seq<char>>::empty(),
        candidates(url, paths.push(path)) == if path_fits(url, path) {
            candidates(url, paths).push(url_with_path(url, path))
        } else {
            candidates(url, paths)
        },
{
    reveal(Seq::filter);
    assert(candidates(url, seq![]) =~= Seq::<Seq<char>>::empty());
    assert(paths.push(path).drop_last() =~= paths);
    assert(fits_into(url)(path) == path_fits(url, path));
    if path_fits(url, path) {
        assert(candidates(url, paths.push(path)) =~= candidates(url, paths).push(
            url_with_path(url, path),
        ));
    }
}

/// The first step of the discovery of a URL, where all well-known paths fit into it: a request
/// for authorization server metadata, with the URL under every path of its kind as the candidates
/// for either document, in the order of the paths.
pub proof fn law_discovery_starts_with_every_well_known_path(url: Seq<char>)
    ensures
        ({
            let server_paths = authorization_server_paths(url_path(url));
            let resource_paths = protected_resource_paths(url_path(url));
            (forall|i: int|
                0 <= i < server_paths.len() ==> path_fits(url, #[trigger] server_paths[i])) && (
            forall|i: int|
                0 <= i < resource_paths.len() ==> path_fits(url, #[trigger] resource_paths[i]))
                ==> first_step(authorization_server_urls(url), protected_resource_urls(url))
                == StepState::Get(
                SearchState::Server {
                    urls: Seq::new(
                        server_paths.len(),
                        |i: int| url_with_path(url, server_paths[i]),
                    ),
                    at: 0,
                    resource_urls: Seq::new(
                        resource_paths.len(),
                        |i: int| url_with_path(url, resource_paths[i]),
                    ),
                },
            )
        }),
{
    let server_paths = authorization_server_paths(url_path(url));
    let resource_paths = protected_resource_paths(url_path(url));
    law_authorization_server_paths(url_path(url));
    law_fitting_paths_are_all_asked(url, server_paths);
    law_fitting_paths_are_all_asked(url, resource_paths);
    assert(urls_at(url, server_paths) =~= Seq::new(
        server_paths.len(),
        |i: int| url_with_path(url, server_paths[i]),
    ));
    assert(urls_at(url, resource_paths) =~= Seq::new(
        resource_paths.len(),
        |i: int| url_with_path(url, resource_paths[i]),
    ));
}

/// In the discovery of a URL into which all well-known paths fit, the root's well-known path is
/// never left out: where no candidate is a usable authorization server, the last request is for
/// the root's metadata of that kind, and where one is but none serves protected resource metadata,
/// the last request is for the root's metadata of that kind.
pub proof fn law_discovery_asks_the_root_last(url: Seq<char>, network: Network)
    ensures
        ({
            let server_paths = authorization_server_paths(url_path(url));
            let resource_paths = protected_resource_paths(url_path(url));
            let first = first_step(authorization_server_urls(url), protected_resource_urls(url));
            (forall|i: int|
                0 <= i < server_paths.len() ==> path_fits(url, #[trigger] server_paths[i])) && (
            forall|i: int|
                0 <= i < resource_paths.len() ==> path_fits(url, #[trigger] resource_paths[i]))
                ==> {
                &&& outcome(first, network) is None ==> requests(first, network).last()
                    == url_with_path(url, "/.well-known/oauth-authorization-server"@)
                &&& outcome(first, network) is Some && (forall|i: int|
                    0 <= i < resource_paths.len() ==> !network.has_resource(
                        url_with_path(url, #[trigger] resource_paths[i]),
                    )) ==> requests(first, network).last() == url_with_path(
                    url,
                    "/.well-known/oauth-protected-resource"@,
                )
            }
        }),
{
    let server_paths = authorization_server_paths(url_path(url));
    let resource_paths = protected_resource_paths(url_path(url));
    let server_urls = urls_at(url, server_paths);
    let resource_urls = urls_at(url, resource_paths);
    let has_server = |url: Seq<char>| network.has_server(url);
    let has_resource = |url: Seq<char>| network.has_resource(url);
    law_authorization_server_paths(url_path(url));
    law_protected_resource_paths(url_path(url));
    law_fitting_paths_are_all_asked(url, server_paths);
    law_fitting_paths_are_all_asked(url, resource_paths);
    law_discovery_outcome(server_urls, resource_urls, network);
    law_discovery_requests(server_urls, resource_urls, network);
    lemma_first_hit_hits(server_urls, 0, has_server);
    lemma_first_hit_hits(resource_urls, 0, has_resource);
    assert(server_urls.last() == url_with_path(url, server_paths.last()));
    assert(resource_urls.last() == url_with_path(url, resource_paths.last()));
    let found = first_hit(server_urls, 0, has_server);
    let none: Seq<Seq<char>> = seq![];
    if found == server_urls.len() {
        assert(asked(server_urls, 0, has_server) + none =~= server_urls);
    } else if forall|i: int|
        0 <= i < resource_paths.len() ==> !network.has_resource(
            url_with_path(url, #[trigger] resource_paths[i]),
        ) {
        let at = first_hit(resource_urls, 0, has_resource);
        if at < resource_urls.len() {
            assert(resource_urls[at] == url_with_path(url, resource_paths[at]));
        }
        assert(asked(resource_urls, 0, has_resource) =~= resource_urls);
    }
}

/// In the discovery of a URL into which all well-known paths fit, support is reported with the
/// scopes of the document under the first path that serves protected resource metadata, whichever
/// path that is.
pub proof fn law_scopes_come_from_the_first_path_that_serves(
    url: Seq<char>,
    network: Network,
    place: int,
)
    ensures
        ({
            let server_paths = authorization_server_paths(url_path(url));
            let resource_paths = protected_resource_paths(url_path(url));
            let first = first_step(authorization_server_urls(url), protected_resource_urls(url));
            let served = (network.resources)(url_with_path(url, resource_paths[place]));
            ({
                &&& forall|i: int|
                    0 <= i < server_paths.len() ==> path_fits(url, #[trigger] server_paths[i])
                &&& forall|i: int|
                    0 <= i < resource_paths.len() ==> path_fits(url, #[trigger] resource_paths[i])
                &&& exists|i: int|
                    0 <= i < server_paths.len() && network.has_server(
                        url_with_path(url, #[trigger] server_paths[i]),
                    )
                &&& 0 <= place < resource_paths.len()
                &&& served matches Served::Response { status, document: Some(_) } && status == 200
                &&& forall|i: int|
                    0 <= i < place ==> !network.has_resource(
                        url_with_path(url, #[trigger] resource_paths[i]),
                    )
            }) ==> (served matches Served::Response { document: Some(document), .. } && outcome(
                first,
                network,
            ) == Some(normalized(optional_texts(document.scopes_supported))))
        }),
{
    let server_paths = authorization_server_paths(url_path(url));
    let resource_paths = protected_resource_paths(url_path(url));
    let server_urls = urls_at(url, server_paths);
    let resource_urls = urls_at(url, resource_paths);
    let served = (network.resources)(url_with_path(url, resource_paths[place]));
    let has_server = |url: Seq<char>| network.has_server(url);
    let has_resource = |url: Seq<char>| network.has_resource(url);
    law_fitting_paths_are_all_asked(url, server_paths);
    law_fitting_paths_are_all_asked(url, resource_paths);
    law_discovery_outcome(server_urls, resource_urls, network);
    lemma_first_hit_hits(server_urls, 0, has_server);
    if exists|i: int|
        0 <= i < server_paths.len() && network.has_server(
            url_with_path(url, #[trigger] server_paths[i]),
        ) {
        let i = choose|i: int|
            0 <= i < server_paths.len() && network.has_server(
                url_with_path(url, #[trigger] server_paths[i]),
            );
        assert(server_urls[i] == url_with_path(url, server_paths[i]));
        assert(has_server(server_urls[i]));
    }
    if 0 <= place < resource_paths.len() && network.has_resource(
        url_with_path(url, resource_paths[place]),
    ) && forall|i: int|
        0 <= i < place ==> !network.has_resource(
            url_with_path(url, #[trigger] resource_paths[i]),
        ) {
        assert forall|i: int| 0 <= i < place implies !has_resource(#[trigger] resource_urls[i]) by {
            assert(resource_urls[i] == url_with_path(url, resource_paths[i]));
        }
        assert(resource_urls[place] == url_with_path(url, resource_paths[place]));
        lemma_first_hit_is(resource_urls, has_resource, place);
    }
}

/// Whether or not all well-known paths fit into a URL, each one that does is asked for its kind of
/// document, and the URLs asked are those of such paths.
pub proof fn law_every_fitting_path_is_a_candidate(url: Seq<char>, asked: Seq<char>)
    ensures
        authorization_server_urls(url).contains(asked) <==> exists|i: int|
            0 <= i < authorization_server_paths(url_path(url)).len() && path_fits(
                url,
                #[trigger] authorization_server_paths(url_path(url))[i],
            ) && asked == url_with_path(url, authorization_server_paths(url_path(url))[i]),
        protected_resource_urls(url).contains(asked) <==> exists|i: int|
            0 <= i < protected_resource_paths(url_path(url)).len() && path_fits(
                url,
                #[trigger] protected_resource_paths(url_path(url))[i],
            ) && asked == url_with_path(url, protected_resource_paths(url_path(url))[i]),
{
    lemma_candidates_contain(url, authorization_server_paths(url_path(url)), asked);
    lemma_candidates_contain(url, protected_resource_paths(url_path(url)), asked);
}

/// The candidates are the URLs of the paths that fit.
proof fn lemma_candidates_contain(url: Seq<char>, paths: Seq<Seq<char>>, asked: Seq<char>)
    ensures
        candidates(url, paths).contains(asked) <==> exists|i: int|
            0 <= i < paths.len() && path_fits(url, #[trigger] paths[i]) && asked == url_with_path(
                url,
                paths[i],
            ),
    decreases paths.len(),
{
    let urls = candidates(url, paths);
    if paths.len() == 0 {
        law_candidates_go_path_by_path(url, paths, asked);
        assert(paths =~= seq![]);
    } else {
        let init = paths.drop_last();
        let last = paths.last();
        lemma_candidates_contain(url, init, asked);
        law_candidates_go_path_by_path(url, init, last);
        assert(init.push(last) =~= paths);
        assert(paths[paths.len() - 1] == last);
        let before = candidates(url, init);
        if urls.contains(asked) {
            let k = choose|k: int| 0 <= k < urls.len() && urls[k] == asked;
            if k < before.len() {
                assert(before[k] == asked);
                assert(before.contains(asked));
                let i = choose|i: int|
                    0 <= i < init.len() && path_fits(url, #[trigger] init[i]) && asked
                        == url_with_path(url, init[i]);
                assert(paths[i] == init[i]);
            }
        }
        if exists|i: int|
            0 <= i < paths.len() && path_fits(url, #[trigger] paths[i]) && asked == url_with_path(
                url,
                paths[i],
            ) {
            let i = choose|i: int|
                0 <= i < paths.len() && path_fits(url, #[trigger] paths[i]) && asked
                    == url_with_path(url, paths[i]);
            if i < init.len() {
                assert(init[i] == paths[i]);
                let k = choose|k: int| 0 <= k < before.len() && before[k] == asked;
                assert(urls[k] == asked);
            } else {
                assert(urls[before.len() as int] == asked);
            }
        }
    }
}

} // verus!
