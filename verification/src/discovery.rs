//! Discovery of the OAuth support of a streamable HTTP MCP server.
//!
//! The search is a sequence of steps. Each step names the request to make next; the caller makes
//! it and reports the reply, which leads to the next step.

use vstd::prelude::*;

use crate::discovery_laws::law_discovery_starts_with_every_well_known_path;
use crate::scopes::{normalize_scopes, normalized, optional_texts};
use crate::text::texts;
use crate::urls::{
    input_fits, parse_url, path_fits, path_of_url, set_url_path, url_parse, url_path, url_with_path,
};
use crate::well_known::{
    authorization_server_discovery_paths, authorization_server_paths,
    protected_resource_metadata_paths, protected_resource_paths,
};
use vstd::utf8::encode_utf8;

verus! {

/// The header that every discovery request carries.
pub const OAUTH_DISCOVERY_HEADER: &'static str = "MCP-Protocol-Version";

/// The value of that header.
pub const OAUTH_DISCOVERY_VERSION: &'static str = "2024-11-05";

/// How long a discovery request may take, in seconds.
pub const DISCOVERY_TIMEOUT_SECS: u64 = 5;

/// What is known of the OAuth support of a server that has any.
#[derive(Debug, Clone, PartialEq, Eq)]
pub struct StreamableHttpOAuthDiscovery {
    pub scopes_supported: Option<Vec<String>>,
}

/// The part of an authorization server's metadata that the search reads.
#[derive(Debug)]
pub struct AuthorizationServerMetadata {
    pub authorization_endpoint: Option<String>,
    pub token_endpoint: Option<String>,
}

/// The part of a protected resource's metadata that the search reads.
#[derive(Debug)]
pub struct ProtectedResourceMetadata {
    pub scopes_supported: Option<Vec<String>>,
}

impl AuthorizationServerMetadata {
    /// Whether both endpoints that a login needs are given.
    pub open spec fn allows_login(self) -> bool {
        self.authorization_endpoint is Some && self.token_endpoint is Some
    }
}

/// The scopes that a discovery reports, as texts: `None` for no OAuth support, `Some(None)` for
/// support without scopes.
pub open spec fn discovered_scopes(
    discovery: Option<StreamableHttpOAuthDiscovery>,
) -> Option<Option<Seq<Seq<char>>>> {
    match discovery {
        Some(found) => Some(optional_texts(found.scopes_supported)),
        None => None,
    }
}

/// What the two metadata documents say together: support needs both endpoints, and the scopes
/// are those of the protected resource alone.
pub open spec fn scopes_of_metadata(
    server: AuthorizationServerMetadata,
    resource: Option<ProtectedResourceMetadata>,
) -> Option<Option<Seq<Seq<char>>>> {
    if !server.allows_login() {
        None
    } else {
        match resource {
            Some(document) => Some(normalized(optional_texts(document.scopes_supported))),
            None => Some(None),
        }
    }
}

/// Makes a discovery of the two metadata documents.
pub fn streamable_http_oauth_discovery_from_metadata(
    authorization_server_metadata: AuthorizationServerMetadata,
    protected_resource_metadata: Option<ProtectedResourceMetadata>,
) -> (r: Option<StreamableHttpOAuthDiscovery>)
    ensures
        discovered_scopes(r) == scopes_of_metadata(
            authorization_server_metadata,
            protected_resource_metadata,
        ),
        r is Some <==> authorization_server_metadata.authorization_endpoint is Some
            && authorization_server_metadata.token_endpoint is Some,
        r matches Some(found) ==> match protected_resource_metadata {
            Some(document) => optional_texts(found.scopes_supported) == normalized(
                optional_texts(document.scopes_supported),
            ),
            None => found.scopes_supported is None,
        },
{
    if authorization_server_metadata.authorization_endpoint.is_none()
        || authorization_server_metadata.token_endpoint.is_none() {
        return None;
    }
    let scopes_supported = match protected_resource_metadata {
        Some(metadata) => normalize_scopes(metadata.scopes_supported),
        None => None,
    };
    Some(StreamableHttpOAuthDiscovery { scopes_supported })
}

/// Why a search could not start.
#[derive(Debug)]
pub enum DiscoveryError {
    /// The text is no URL; the message says why.
    InvalidUrl(String),
    /// The text has more characters than the URL type can count.
    UrlTooLong,
}

/// How a request for a metadata document went, before its body is read.
#[derive(Debug, Clone, Copy)]
pub enum Reply {
    /// No response came.
    SendFailed,
    /// A response with this status code came.
    Status(u16),
}

/// The status code of a response whose body is read.
pub const STATUS_OK: u16 = 200;

/// The search for authorization server metadata, at one of its candidates.
pub struct AuthorizationServerSearch {
    urls: Vec<String>,
    at: usize,
    protected_resource_urls: Vec<String>,
}

/// The search for protected resource metadata, at one of its candidates.
pub struct ProtectedResourceSearch {
    urls: Vec<String>,
    at: usize,
    server: AuthorizationServerMetadata,
}

/// What the caller does next.
pub enum DiscoveryStep {
    /// Request the search's URL, and report the reply to it.
    GetAuthorizationServer(AuthorizationServerSearch),
    /// Read the body of the response, and report the decoded document to the search.
    ReadAuthorizationServer(AuthorizationServerSearch),
    /// Request the search's URL, and report the reply to it.
    GetProtectedResource(ProtectedResourceSearch),
    /// Read the body of the response, and report the decoded document to the search.
    ReadProtectedResource(ProtectedResourceSearch),
    /// Nothing: this is the outcome.
    Finish(Option<StreamableHttpOAuthDiscovery>),
}

/// A search as a value: its candidates, its place among them, and what the other half of the
/// discovery needs or has found.
pub enum SearchState {
    /// For authorization server metadata; the candidates of the other half come after it.
    Server { urls: Seq<Seq<char>>, at: int, resource_urls: Seq<Seq<char>> },
    /// For protected resource metadata; the authorization server is found.
    Resource { urls: Seq<Seq<char>>, at: int, server: AuthorizationServerMetadata },
}

/// A step as a value.
pub enum StepState {
    Get(SearchState),
    Read(SearchState),
    Finish(Option<Option<Seq<Seq<char>>>>),
}

impl SearchState {
    /// The candidates of the search.
    pub open spec fn urls(self) -> Seq<Seq<char>> {
        match self {
            SearchState::Server { urls, .. } => urls,
            SearchState::Resource { urls, .. } => urls,
        }
    }

    /// The place of the search among its candidates.
    pub open spec fn at(self) -> int {
        match self {
            SearchState::Server { at, .. } => at,
            SearchState::Resource { at, .. } => at,
        }
    }

    /// The URL that the search asks.
    pub open spec fn url(self) -> Seq<char> {
        self.urls()[self.at()]
    }

    /// The step at the search's place: a request, or the outcome where the candidates are used up.
    pub open spec fn step(self) -> StepState {
        if self.at() < self.urls().len() {
            StepState::Get(self)
        } else {
            match self {
                SearchState::Server { .. } => StepState::Finish(None),
                SearchState::Resource { server, .. } => StepState::Finish(
                    scopes_of_metadata(server, None),
                ),
            }
        }
    }

    /// The step at the next candidate.
    pub open spec fn skip(self) -> StepState {
        match self {
            SearchState::Server { urls, at, resource_urls } => (SearchState::Server {
                urls,
                at: at + 1,
                resource_urls,
            }).step(),
            SearchState::Resource { urls, at, server } => (SearchState::Resource {
                urls,
                at: at + 1,
                server,
            }).step(),
        }
    }

    /// The step after a reply.
    pub open spec fn replied(self, reply: Reply) -> StepState {
        if reply == Reply::Status(STATUS_OK) {
            StepState::Read(self)
        } else {
            self.skip()
        }
    }

    /// The step after an attempt to read authorization server metadata.
    pub open spec fn server_read(self, document: Option<AuthorizationServerMetadata>) -> StepState {
        match (self, document) {
            (
                SearchState::Server { resource_urls, .. },
                Some(server),
            ) if server.allows_login() => (SearchState::Resource {
                urls: resource_urls,
                at: 0,
                server,
            }).step(),
            _ => self.skip(),
        }
    }

    /// The step after an attempt to read protected resource metadata.
    pub open spec fn resource_read(self, document: Option<ProtectedResourceMetadata>) -> StepState {
        match (self, document) {
            (SearchState::Resource { server, .. }, Some(resource)) => StepState::Finish(
                scopes_of_metadata(server, Some(resource)),
            ),
            _ => self.skip(),
        }
    }
}

impl View for AuthorizationServerSearch {
    type V = SearchState;

    closed spec fn view(&self) -> SearchState {
        SearchState::Server {
            urls: texts(self.urls@),
            at: self.at as int,
            resource_urls: texts(self.protected_resource_urls@),
        }
    }
}

impl View for ProtectedResourceSearch {
    type V = SearchState;

    closed spec fn view(&self) -> SearchState {
        SearchState::Resource {
            urls: texts(self.urls@),
            at: self.at as int,
            server: self.server,
        }
    }
}

impl View for DiscoveryStep {
    type V = StepState;

    open spec fn view(&self) -> StepState {
        match *self {
            DiscoveryStep::GetAuthorizationServer(search) => StepState::Get(search@),
            DiscoveryStep::ReadAuthorizationServer(search) => StepState::Read(search@),
            DiscoveryStep::GetProtectedResource(search) => StepState::Get(search@),
            DiscoveryStep::ReadProtectedResource(search) => StepState::Read(search@),
            DiscoveryStep::Finish(discovery) => StepState::Finish(discovered_scopes(discovery)),
        }
    }
}

impl AuthorizationServerSearch {
    /// A search stands at one of its candidates.
    #[verifier::type_invariant]
    closed spec fn in_range(self) -> bool {
        self.at < self.urls.len()
    }

    /// The step at candidate `at`.
    fn step_at(urls: Vec<String>, at: usize, protected_resource_urls: Vec<String>) -> (r:
        DiscoveryStep)
        ensures
            r@ == (SearchState::Server {
                urls: texts(urls@),
                at: at as int,
                resource_urls: texts(protected_resource_urls@),
            }).step(),
    {
        if at < urls.len() {
            DiscoveryStep::GetAuthorizationServer(
                AuthorizationServerSearch { urls, at, protected_resource_urls },
            )
        } else {
            DiscoveryStep::Finish(None)
        }
    }

    /// The URL to request.
    pub fn url(&self) -> (r: &str)
        ensures
            r@ == self@.url(),
            self@ is Server,
            0 <= self@.at() < self@.urls().len(),
            self@ matches SearchState::Server { urls, at, .. } && 0 <= at < urls.len() && r@
                == urls[at],
    {
        proof {
            use_type_invariant(self);
        }
        self.urls[self.at].as_str()
    }

    /// Goes on to the next candidate.
    fn skip(self) -> (r: DiscoveryStep)
        ensures
            r@ == self@.skip(),
    {
        proof {
            use_type_invariant(&self);
        }
        Self::step_at(self.urls, self.at + 1, self.protected_resource_urls)
    }

    /// Takes the reply to the request: the body is read where the status is 200, and else the
    /// search goes on to the next candidate.
    pub fn replied(self, reply: Reply) -> (r: DiscoveryStep)
        ensures
            self@ is Server,
            r@ == self@.replied(reply),
            self@ matches SearchState::Server { urls, at, resource_urls } && if reply
                == Reply::Status(200) {
                r matches DiscoveryStep::ReadAuthorizationServer(search) && search@ == self@
            } else if at + 1 < urls.len() {
                r matches DiscoveryStep::GetAuthorizationServer(search) && search@ == (
                SearchState::Server { urls, at: at + 1, resource_urls })
            } else {
                r matches DiscoveryStep::Finish(outcome) && outcome is None
            },
    {
        match reply {
            Reply::Status(code) if code == STATUS_OK => {
                DiscoveryStep::ReadAuthorizationServer(self)
            },
            _ => self.skip(),
        }
    }

    /// Takes the document of the response, or `None` where it could not be decoded. A document
    /// with both endpoints ends this half of the search; with any other, the search goes on to
    /// the next candidate.
    pub fn read(self, document: Option<AuthorizationServerMetadata>) -> (r: DiscoveryStep)
        ensures
            self@ is Server,
            r@ == self@.server_read(document),
            self@ matches SearchState::Server { urls, at, resource_urls } && if document is Some
                && document->0.authorization_endpoint is Some && document->0.token_endpoint is Some {
                if resource_urls.len() > 0 {
                    r matches DiscoveryStep::GetProtectedResource(search) && search@ == (
                    SearchState::Resource { urls: resource_urls, at: 0, server: document->0 })
                } else {
                    r matches DiscoveryStep::Finish(Some(found)) && found.scopes_supported is None
                }
            } else if at + 1 < urls.len() {
                r matches DiscoveryStep::GetAuthorizationServer(search) && search@ == (
                SearchState::Server { urls, at: at + 1, resource_urls })
            } else {
                r matches DiscoveryStep::Finish(outcome) && outcome is None
            },
    {
        match document {
            Some(server) => {
                if server.authorization_endpoint.is_some() && server.token_endpoint.is_some() {
                    ProtectedResourceSearch::step_at(self.protected_resource_urls, 0, server)
                } else {
                    self.skip()
                }
            },
            None => self.skip(),
        }
    }
}

impl ProtectedResourceSearch {
    /// A search stands at one of its candidates.
    #[verifier::type_invariant]
    closed spec fn in_range(self) -> bool {
        self.at < self.urls.len()
    }

    /// The step at candidate `at`.
    fn step_at(urls: Vec<String>, at: usize, server: AuthorizationServerMetadata) -> (r:
        DiscoveryStep)
        ensures
            r@ == (SearchState::Resource { urls: texts(urls@), at: at as int, server }).step(),
    {
        if at < urls.len() {
            DiscoveryStep::GetProtectedResource(
                ProtectedResourceSearch { urls, at, server },
            )
        } else {
            DiscoveryStep::Finish(streamable_http_oauth_discovery_from_metadata(server, None))
        }
    }

    /// The URL to request.
    pub fn url(&self) -> (r: &str)
        ensures
            r@ == self@.url(),
            self@ is Resource,
            0 <= self@.at() < self@.urls().len(),
            self@ matches SearchState::Resource { urls, at, .. } && 0 <= at < urls.len() && r@
                == urls[at],
    {
        proof {
            use_type_invariant(self);
        }
        self.urls[self.at].as_str()
    }

    /// Goes on to the next candidate.
    fn skip(self) -> (r: DiscoveryStep)
        ensures
            r@ == self@.skip(),
    {
        proof {
            use_type_invariant(&self);
        }
        Self::step_at(self.urls, self.at + 1, self.server)
    }

    /// Takes the reply to the request: the body is read where the status is 200, and else the
    /// search goes on to the next candidate.
    pub fn replied(self, reply: Reply) -> (r: DiscoveryStep)
        ensures
            self@ is Resource,
            r@ == self@.replied(reply),
            self@ matches SearchState::Resource { urls, at, server } && if reply == Reply::Status(
                200,
            ) {
                r matches DiscoveryStep::ReadProtectedResource(search) && search@ == self@
            } else if at + 1 < urls.len() {
                r matches DiscoveryStep::GetProtectedResource(search) && search@ == (
                SearchState::Resource { urls, at: at + 1, server })
            } else {
                r matches DiscoveryStep::Finish(outcome) && (outcome is Some
                    <==> server.authorization_endpoint is Some && server.token_endpoint is Some)
                    && (outcome is Some ==> outcome->0.scopes_supported is None)
            },
    {
        match reply {
            Reply::Status(code) if code == STATUS_OK => DiscoveryStep::ReadProtectedResource(self),
            _ => self.skip(),
        }
    }

    /// Takes the document of the response, or `None` where it could not be decoded. Any document
    /// ends the search; without one, it goes on to the next candidate.
    pub fn read(self, document: Option<ProtectedResourceMetadata>) -> (r: DiscoveryStep)
        ensures
            self@ is Resource,
            r@ == self@.resource_read(document),
            self@ matches SearchState::Resource { urls, at, server } && if document is Some {
                r matches DiscoveryStep::Finish(outcome) && (outcome is Some
                    <==> server.authorization_endpoint is Some && server.token_endpoint is Some)
                    && (outcome is Some ==> optional_texts(outcome->0.scopes_supported)
                    == normalized(optional_texts(document->0.scopes_supported)))
            } else if at + 1 < urls.len() {
                r matches DiscoveryStep::GetProtectedResource(search) && search@ == (
                SearchState::Resource { urls, at: at + 1, server })
            } else {
                r matches DiscoveryStep::Finish(outcome) && (outcome is Some
                    <==> server.authorization_endpoint is Some && server.token_endpoint is Some)
                    && (outcome is Some ==> outcome->0.scopes_supported is None)
            },
    {
        match document {
            Some(resource) => DiscoveryStep::Finish(
                streamable_http_oauth_discovery_from_metadata(self.server, Some(resource)),
            ),
            None => self.skip(),
        }
    }
}

/// The first step of a discovery over the given candidates.
pub open spec fn first_step(
    server_urls: Seq<Seq<char>>,
    resource_urls: Seq<Seq<char>>,
) -> StepState {
    (SearchState::Server { urls: server_urls, at: 0, resource_urls }).step()
}

/// Starts a discovery over the given candidates for the two documents.
pub fn search_metadata(
    authorization_server_urls: Vec<String>,
    protected_resource_urls: Vec<String>,
) -> (r: DiscoveryStep)
    ensures
        r@ == first_step(texts(authorization_server_urls@), texts(protected_resource_urls@)),
        if authorization_server_urls@.len() > 0 {
            r matches DiscoveryStep::GetAuthorizationServer(search) && search@ == (
            SearchState::Server {
                urls: texts(authorization_server_urls@),
                at: 0,
                resource_urls: texts(protected_resource_urls@),
            })
        } else {
            r matches DiscoveryStep::Finish(outcome) && outcome is None
        },
{
    AuthorizationServerSearch::step_at(authorization_server_urls, 0, protected_resource_urls)
}

/// The URL `url` with each of `paths` in the place of its own path.
pub open spec fn urls_at(url: Seq<char>, paths: Seq<Seq<char>>) -> Seq<Seq<char>> {
    paths.map_values(|path: Seq<char>| url_with_path(url, path))
}

/// Whether a path fits into `url`.
pub open spec fn fits_into(url: Seq<char>) -> spec_fn(Seq<char>) -> bool {
    |path: Seq<char>| path_fits(url, path)
}

/// The URLs to ask for a document of the server at `url` that may stand under `paths`. A path that
/// does not fit into the URL is passed over.
pub open spec fn candidates(url: Seq<char>, paths: Seq<Seq<char>>) -> Seq<Seq<char>> {
    urls_at(url, paths.filter(fits_into(url)))
}

/// The candidates for authorization server metadata of the server at `url`.
pub open spec fn authorization_server_urls(url: Seq<char>) -> Seq<Seq<char>> {
    candidates(url, authorization_server_paths(url_path(url)))
}

/// The candidates for protected resource metadata of the server at `url`.
pub open spec fn protected_resource_urls(url: Seq<char>) -> Seq<Seq<char>> {
    candidates(url, protected_resource_paths(url_path(url)))
}

/// Tells whether `path` fits into `url`, whose serialization is `text`.
fn check_path(url: &str, text: &str, path: &str) -> (r: bool)
    requires
        url_parse(url@) == Ok::<Seq<char>, Seq<char>>(text@),
    ensures
        r == path_fits(url@, path@),
{
    let text_len = text.as_bytes().len();
    let path_len = path.as_bytes().len();
    let total: u128 = text_len as u128 + 3 * (path_len as u128) + 16;
    total <= u32::MAX as u128
}

/// The URLs to ask for a document of the server at `url`, whose serialization is `text`, that may
/// stand under `paths`.
fn candidate_urls(url: &str, text: &str, paths: &Vec<String>) -> (r: Vec<String>)
    requires
        input_fits(url@),
        url_parse(url@) == Ok::<Seq<char>, Seq<char>>(text@),
    ensures
        texts(r@) == candidates(url@, texts(paths@)),
{
    let mut r: Vec<String> = Vec::new();
    let ghost all = texts(paths@);
    reveal(Seq::filter);
    assert(texts(r@) =~= candidates(url@, all.take(0)));
    for i in 0..paths.len()
        invariant
            input_fits(url@),
            url_parse(url@) == Ok::<Seq<char>, Seq<char>>(text@),
            all == texts(paths@),
            texts(r@) == candidates(url@, all.take(i as int)),
    {
        let ghost before = texts(r@);
        let ghost path = all[i as int];
        proof {
            reveal(Seq::filter);
            assert(all.take(i + 1).drop_last() =~= all.take(i as int));
            assert(all.take(i + 1).last() == path);
        }
        if check_path(url, text, paths[i].as_str()) {
            assert(fits_into(url@)(path));
            r.push(set_url_path(url, paths[i].as_str()));
            assert(texts(r@) =~= before.push(url_with_path(url@, path)));
            assert(candidates(url@, all.take(i + 1)) =~= before.push(url_with_path(url@, path)));
        } else {
            assert(!fits_into(url@)(path));
        }
    }
    assert(all.take(all.len() as int) =~= all);
    r
}

/// Starts the discovery of the OAuth support of the server at `url`: the authorization server
/// metadata is searched for first, and then the protected resource metadata, each under the
/// well-known paths of the server. A path that would make the URL outgrow the offsets of the URL
/// type is passed over: such a URL is far too long for a request.
///
/// What the URLs hold beyond the results of `reqwest::Url` is not stated.
pub fn discover_streamable_http_oauth(url: &str) -> (r: Result<DiscoveryStep, DiscoveryError>)
    ensures
        match r {
            Ok(step) => {
                &&& input_fits(url@)
                &&& url_parse(url@) is Ok
                &&& step@ == first_step(
                    authorization_server_urls(url@),
                    protected_resource_urls(url@),
                )
            },
            Err(DiscoveryError::InvalidUrl(message)) => {
                &&& input_fits(url@)
                &&& url_parse(url@) == Err::<Seq<char>, Seq<char>>(message@)
            },
            Err(DiscoveryError::UrlTooLong) => !input_fits(url@),
        },
        r matches Err(DiscoveryError::UrlTooLong) <==> url@.len() > 2147483647,
        r matches Ok(step) ==> step@ == first_step(
            candidates(url@, authorization_server_paths(url_path(url@))),
            candidates(url@, protected_resource_paths(url_path(url@))),
        ),
        r matches Ok(step) ==> {
            let server_paths = authorization_server_paths(url_path(url@));
            let resource_paths = protected_resource_paths(url_path(url@));
            (forall|i: int|
                0 <= i < server_paths.len() ==> path_fits(url@, #[trigger] server_paths[i])) && (
            forall|i: int|
                0 <= i < resource_paths.len() ==> path_fits(url@, #[trigger] resource_paths[i]))
                ==> (step matches DiscoveryStep::GetAuthorizationServer(search) && search@ == (
            SearchState::Server {
                urls: Seq::new(server_paths.len(), |i: int| url_with_path(url@, server_paths[i])),
                at: 0,
                resource_urls: Seq::new(
                    resource_paths.len(),
                    |i: int| url_with_path(url@, resource_paths[i]),
                ),
            }))
        },
{
    proof {
        law_discovery_starts_with_every_well_known_path(url@);
    }
    if url.unicode_len() as u64 > i32::MAX as u64 {
        return Err(DiscoveryError::UrlTooLong);
    }
    let text = match parse_url(url) {
        Ok(text) => text,
        Err(message) => return Err(DiscoveryError::InvalidUrl(message)),
    };
    let base_path = path_of_url(url);
    let server_paths = authorization_server_discovery_paths(base_path.as_str());
    let resource_paths = protected_resource_metadata_paths(base_path.as_str());
    Ok(
        search_metadata(
            candidate_urls(url, text.as_str(), &server_paths),
            candidate_urls(url, text.as_str(), &resource_paths),
        ),
    )
}

} // verus!
