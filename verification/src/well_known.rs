//! Well-known paths under which a server may publish its OAuth metadata.

use vstd::prelude::*;

use crate::text::{
    law_margin_is_lost, law_trimming_leaves_the_middle, push_unique, texts, trim_margin, trimmed, with_unique, Margin,
};

verus! {

/// Where a server publishes its authorization server metadata.
pub const AUTHORIZATION_SERVER: &'static str = "/.well-known/oauth-authorization-server";

/// Where a server publishes its protected resource metadata.
pub const PROTECTED_RESOURCE: &'static str = "/.well-known/oauth-protected-resource";

/// The candidate paths for authorization server metadata, in the order in which they are tried.
pub open spec fn authorization_server_paths(base_path: Seq<char>) -> Seq<Seq<char>> {
    let endpoint = trimmed(base_path, Margin::Slash);
    let canonical = AUTHORIZATION_SERVER@;
    if endpoint.len() == 0 {
        seq![canonical]
    } else {
        let inserted = canonical + seq!['/'] + endpoint;
        let appended = seq!['/'] + endpoint + canonical;
        with_unique(with_unique(seq![inserted], appended), canonical)
    }
}

/// The candidate paths for protected resource metadata, in the order in which they are tried.
pub open spec fn protected_resource_paths(base_path: Seq<char>) -> Seq<Seq<char>> {
    let endpoint = trimmed(base_path, Margin::Slash);
    let canonical = PROTECTED_RESOURCE@;
    if endpoint.len() == 0 {
        seq![canonical]
    } else {
        seq![canonical + seq!['/'] + endpoint, canonical]
    }
}

/// `first` followed by a slash and `second`.
fn joined(first: &str, second: &str) -> (r: String)
    ensures
        r@ == first@ + seq!['/'] + second@,
{
    let mut r = first.to_string();
    r.append("/");
    r.append(second);
    proof {
        reveal_strlit("/");
        assert("/"@ =~= seq!['/']);
    }
    r
}

/// Candidate paths for authorization server metadata (RFC 8414, section 3.1).
pub fn authorization_server_discovery_paths(base_path: &str) -> (r: Vec<String>)
    ensures
        texts(r@) == authorization_server_paths(base_path@),
{
    let endpoint = trim_margin(base_path, Margin::Slash);
    let canonical = AUTHORIZATION_SERVER.to_string();
    let mut candidates: Vec<String> = Vec::new();
    if endpoint.is_empty() {
        candidates.push(canonical);
        assert(texts(candidates@) =~= seq![AUTHORIZATION_SERVER@]);
        return candidates;
    }
    let inserted = joined(AUTHORIZATION_SERVER, endpoint);
    let mut appended = joined("", endpoint);
    appended.append(AUTHORIZATION_SERVER);
    proof {
        reveal_strlit("");
        assert(""@ + seq!['/'] =~= seq!['/']);
        assert(texts(candidates@).push(inserted@) =~= seq![inserted@]);
    }
    push_unique(&mut candidates, inserted);
    push_unique(&mut candidates, appended);
    push_unique(&mut candidates, canonical);
    candidates
}

/// Candidate paths for protected resource metadata: the endpoint's own before the root's.
pub fn protected_resource_metadata_paths(base_path: &str) -> (r: Vec<String>)
    ensures
        texts(r@) == protected_resource_paths(base_path@),
{
    let endpoint = trim_margin(base_path, Margin::Slash);
    let canonical = PROTECTED_RESOURCE.to_string();
    let mut candidates: Vec<String> = Vec::new();
    if !endpoint.is_empty() {
        candidates.push(joined(PROTECTED_RESOURCE, endpoint));
    }
    candidates.push(canonical);
    assert(texts(candidates@) =~= protected_resource_paths(base_path@));
    candidates
}

/// No authorization server path is tried twice; the path with the endpoint inserted is tried
/// first, and the root's path last. There is a third one between them unless appending the
/// well-known path to the endpoint gives what inserting it gives.
pub proof fn law_authorization_server_paths(base_path: Seq<char>)
    ensures
        ({
            let paths = authorization_server_paths(base_path);
            let endpoint = trimmed(base_path, Margin::Slash);
            let canonical = AUTHORIZATION_SERVER@;
            let inserted = canonical + seq!['/'] + endpoint;
            let appended = seq!['/'] + endpoint + canonical;
            &&& paths.no_duplicates()
            &&& paths.last() == canonical
            &&& endpoint.len() == 0 <==> paths.len() == 1
            &&& endpoint.len() > 0 ==> paths[0] == inserted
            &&& endpoint.len() > 0 && inserted != appended ==> paths == seq![
                inserted,
                appended,
                canonical,
            ]
            &&& endpoint.len() > 0 && inserted == appended ==> paths == seq![inserted, canonical]
        }),
{
    let endpoint = trimmed(base_path, Margin::Slash);
    let canonical = AUTHORIZATION_SERVER@;
    let inserted = canonical + seq!['/'] + endpoint;
    let appended = seq!['/'] + endpoint + canonical;
    let one = seq![inserted];
    let two = with_unique(one, appended);
    assert(inserted.len() > canonical.len() && appended.len() > canonical.len());
    assert(one[0] == inserted);
    if inserted == appended {
        assert(one.contains(appended));
        assert(two.push(canonical) =~= seq![inserted, canonical]);
    } else {
        assert(!one.contains(appended));
        assert(two =~= seq![inserted, appended]);
        assert(two.push(canonical) =~= seq![inserted, appended, canonical]);
    }
    assert(!two.contains(canonical));
}

/// No protected resource path is tried twice; the endpoint's own path is tried before the
/// root's, and the root's is always tried.
pub proof fn law_protected_resource_paths(base_path: Seq<char>)
    ensures
        ({
            let paths = protected_resource_paths(base_path);
            let endpoint = trimmed(base_path, Margin::Slash);
            &&& paths.no_duplicates()
            &&& paths.last() == PROTECTED_RESOURCE@
            &&& endpoint.len() > 0 ==> paths.len() == 2 && paths[0] == PROTECTED_RESOURCE@
                + seq!['/'] + endpoint
            &&& endpoint.len() == 0 ==> paths.len() == 1
        }),
{
    let endpoint = trimmed(base_path, Margin::Slash);
    assert((PROTECTED_RESOURCE@ + seq!['/'] + endpoint).len() > PROTECTED_RESOURCE@.len());
}

/// A slash more at the start or the end of the base path makes no difference.
pub proof fn law_outer_slashes_do_not_matter(base_path: Seq<char>)
    ensures
        authorization_server_paths(seq!['/'] + base_path) == authorization_server_paths(base_path),
        authorization_server_paths(base_path.push('/')) == authorization_server_paths(base_path),
        protected_resource_paths(seq!['/'] + base_path) == protected_resource_paths(base_path),
        protected_resource_paths(base_path.push('/')) == protected_resource_paths(base_path),
{
    law_margin_is_lost(base_path, Margin::Slash, '/');
}

/// For an endpoint, however many slashes stand around it, the paths tried are the well-known path
/// with the endpoint behind it, for an authorization server the one with the endpoint before it
/// unless that is the same, and the well-known path alone, in this order.
pub proof fn law_paths_of_an_endpoint(before: Seq<char>, endpoint: Seq<char>, after: Seq<char>)
    requires
        forall|i: int| 0 <= i < before.len() ==> #[trigger] before[i] == '/',
        forall|i: int| 0 <= i < after.len() ==> #[trigger] after[i] == '/',
        endpoint.len() > 0,
        endpoint.first() != '/',
        endpoint.last() != '/',
    ensures
        ({
            let server = "/.well-known/oauth-authorization-server"@;
            let inserted = server + seq!['/'] + endpoint;
            let appended = seq!['/'] + endpoint + server;
            authorization_server_paths(before + endpoint + after) == if inserted == appended {
                seq![inserted, server]
            } else {
                seq![inserted, appended, server]
            }
        }),
        ({
            let resource = "/.well-known/oauth-protected-resource"@;
            protected_resource_paths(before + endpoint + after) == seq![
                resource + seq!['/'] + endpoint,
                resource,
            ]
        }),
{
    law_trimming_leaves_the_middle(before, endpoint, after, Margin::Slash);
    law_authorization_server_paths(before + endpoint + after);
}

/// For a server without an endpoint path, the well-known path alone is tried.
pub proof fn law_paths_of_a_root(base_path: Seq<char>)
    requires
        forall|i: int| 0 <= i < base_path.len() ==> #[trigger] base_path[i] == '/',
    ensures
        authorization_server_paths(base_path) == seq!["/.well-known/oauth-authorization-server"@],
        protected_resource_paths(base_path) == seq!["/.well-known/oauth-protected-resource"@],
{
    let none: Seq<char> = seq![];
    law_trimming_leaves_the_middle(base_path, none, none, Margin::Slash);
    assert(base_path + none + none =~= base_path);
}

} // verus!
