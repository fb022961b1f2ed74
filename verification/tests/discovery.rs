use codex_review_auth::auth_status::supports_oauth_login;
use codex_review_auth::discovery::{
    discover_streamable_http_oauth, search_metadata, streamable_http_oauth_discovery_from_metadata,
    AuthorizationServerMetadata, DiscoveryError, DiscoveryStep, ProtectedResourceMetadata, Reply,
    StreamableHttpOAuthDiscovery, DISCOVERY_TIMEOUT_SECS, OAUTH_DISCOVERY_HEADER,
    OAUTH_DISCOVERY_VERSION,
};
use serde_json::Value;

const SERVER: &str = "http://127.0.0.1:4321/mcp";
const AUTHORIZATION: &str = "http://127.0.0.1:4321/.well-known/oauth-authorization-server/mcp";
const RESOURCE: &str = "http://127.0.0.1:4321/.well-known/oauth-protected-resource/mcp";

/// A response under a URL: its status and its body.
type Route = (&'static str, u16, &'static str);

fn text_field(document: &Value, name: &str) -> Option<String> {
    document.get(name).and_then(Value::as_str).map(str::to_string)
}

fn authorization_server(body: &str) -> Option<AuthorizationServerMetadata> {
    let document: Value = serde_json::from_str(body).ok()?;
    Some(AuthorizationServerMetadata {
        authorization_endpoint: text_field(&document, "authorization_endpoint"),
        token_endpoint: text_field(&document, "token_endpoint"),
    })
}

fn protected_resource(body: &str) -> Option<ProtectedResourceMetadata> {
    let document: Value = serde_json::from_str(body).ok()?;
    let scopes_supported = document.get("scopes_supported").and_then(Value::as_array).map(|list| {
        list.iter().map(|scope| scope.as_str().unwrap().to_string()).collect()
    });
    Some(ProtectedResourceMetadata { scopes_supported })
}

/// Follows the steps of a discovery; returns its outcome and the URLs it asked for.
fn follow(
    mut step: DiscoveryStep,
    routes: &[Route],
) -> (Option<StreamableHttpOAuthDiscovery>, Vec<String>) {
    let mut asked: Vec<String> = Vec::new();
    let mut body = "";
    loop {
        step = match step {
            DiscoveryStep::Finish(outcome) => return (outcome, asked),
            DiscoveryStep::GetAuthorizationServer(search) => {
                let url = search.url().to_string();
                let (reply, text) = get(&url, routes);
                asked.push(url);
                body = text;
                search.replied(reply)
            }
            DiscoveryStep::ReadAuthorizationServer(search) => search.read(authorization_server(body)),
            DiscoveryStep::GetProtectedResource(search) => {
                let url = search.url().to_string();
                let (reply, text) = get(&url, routes);
                asked.push(url);
                body = text;
                search.replied(reply)
            }
            DiscoveryStep::ReadProtectedResource(search) => search.read(protected_resource(body)),
        }
    }
}

/// A status of 0 stands for a request that could not be sent.
fn get(url: &str, routes: &[Route]) -> (Reply, &'static str) {
    for (route, status, body) in routes {
        if *route == url {
            if *status == 0 {
                return (Reply::SendFailed, "");
            }
            return (Reply::Status(*status), body);
        }
    }
    (Reply::Status(404), "")
}

fn discover(routes: &[Route]) -> Option<StreamableHttpOAuthDiscovery> {
    let step = discover_streamable_http_oauth(SERVER).expect("discovery should succeed");
    follow(step, routes).0
}

fn strings(list: &[&str]) -> Vec<String> {
    list.iter().map(|s| s.to_string()).collect()
}

#[test]
fn discover_streamable_http_oauth_returns_normalized_scopes() {
    let discovery = discover(&[
        (
            AUTHORIZATION,
            200,
            r#"{"authorization_endpoint": "https://example.com/authorize",
                "token_endpoint": "https://example.com/token"}"#,
        ),
        (
            RESOURCE,
            200,
            r#"{"authorization_servers": ["https://auth.example.com"],
                "scopes_supported": ["profile", " email ", "profile", "", "   "]}"#,
        ),
    ])
    .expect("oauth support should be detected");
    assert_eq!(
        discovery.scopes_supported,
        Some(vec!["profile".to_string(), "email".to_string()])
    );
}

#[test]
fn discover_streamable_http_oauth_prefers_protected_resource_scopes() {
    let discovery = discover(&[
        (
            AUTHORIZATION,
            200,
            r#"{"authorization_endpoint": "https://auth.example.com/authorize",
                "token_endpoint": "https://auth.example.com/token",
                "scopes_supported": ["wrong-scope"]}"#,
        ),
        (
            RESOURCE,
            200,
            r#"{"authorization_servers": ["https://auth.example.com"],
                "scopes_supported": ["profile", " email ", "profile", "", "   "]}"#,
        ),
    ])
    .expect("oauth support should be detected");
    assert_eq!(
        discovery.scopes_supported,
        Some(vec!["profile".to_string(), "email".to_string()])
    );
}

#[test]
fn discover_streamable_http_oauth_ignores_empty_scopes() {
    let discovery = discover(&[
        (
            AUTHORIZATION,
            200,
            r#"{"authorization_endpoint": "https://example.com/authorize",
                "token_endpoint": "https://example.com/token",
                "scopes_supported": ["wrong-scope"]}"#,
        ),
        (
            RESOURCE,
            200,
            r#"{"authorization_servers": ["https://auth.example.com"],
                "scopes_supported": ["", "   "]}"#,
        ),
    ])
    .expect("oauth support should be detected");
    assert_eq!(discovery.scopes_supported, None);
}

#[test]
fn supports_oauth_login_does_not_require_scopes_supported() {
    let discovery = discover(&[(
        AUTHORIZATION,
        200,
        r#"{"authorization_endpoint": "https://example.com/authorize",
            "token_endpoint": "https://example.com/token"}"#,
    )]);
    let supported =
        supports_oauth_login::<DiscoveryError>(Ok(discovery)).expect("support check should succeed");
    assert!(supported);
}

#[test]
fn support_follows_from_the_outcome_of_the_discovery() {
    assert_eq!(supports_oauth_login::<u8>(Ok(None)), Ok(false));
    assert_eq!(supports_oauth_login::<u8>(Err(7)), Err(7));
}

#[test]
fn streamable_http_oauth_discovery_prefers_protected_resource_scopes_without_fallback() {
    let discovery = streamable_http_oauth_discovery_from_metadata(
        AuthorizationServerMetadata {
            authorization_endpoint: Some("https://auth.example.com/authorize".to_string()),
            token_endpoint: Some("https://auth.example.com/token".to_string()),
        },
        Some(ProtectedResourceMetadata {
            scopes_supported: Some(vec![
                "profile".to_string(),
                " email ".to_string(),
                "profile".to_string(),
                "".to_string(),
            ]),
        }),
    )
    .expect("oauth support should be detected");

    assert_eq!(
        discovery.scopes_supported,
        Some(vec!["profile".to_string(), "email".to_string()])
    );
}

#[test]
fn streamable_http_oauth_discovery_omits_scopes_when_protected_resource_metadata_has_none() {
    let discovery = streamable_http_oauth_discovery_from_metadata(
        AuthorizationServerMetadata {
            authorization_endpoint: Some("https://auth.example.com/authorize".to_string()),
            token_endpoint: Some("https://auth.example.com/token".to_string()),
        },
        Some(ProtectedResourceMetadata {
            scopes_supported: Some(vec!["".to_string(), "   ".to_string()]),
        }),
    )
    .expect("oauth support should be detected");

    assert_eq!(discovery.scopes_supported, None);
}

#[test]
fn discovery_from_metadata_needs_both_endpoints() {
    let endpoint = || Some("https://auth.example.com".to_string());
    for (authorization_endpoint, token_endpoint) in
        [(None, None), (endpoint(), None), (None, endpoint())]
    {
        let server = AuthorizationServerMetadata { authorization_endpoint, token_endpoint };
        assert_eq!(streamable_http_oauth_discovery_from_metadata(server, None), None);
    }
    let server = AuthorizationServerMetadata {
        authorization_endpoint: endpoint(),
        token_endpoint: endpoint(),
    };
    assert_eq!(
        streamable_http_oauth_discovery_from_metadata(server, None),
        Some(StreamableHttpOAuthDiscovery { scopes_supported: None })
    );
}

#[test]
fn candidates_are_asked_in_order_when_none_answers() {
    let step = discover_streamable_http_oauth("https://example.com/public/mcp/?key=1").unwrap();
    let (outcome, asked) = follow(step, &[]);
    assert_eq!(outcome, None);
    assert_eq!(
        asked,
        strings(&[
            "https://example.com/.well-known/oauth-authorization-server/public/mcp?key=1",
            "https://example.com/public/mcp/.well-known/oauth-authorization-server?key=1",
            "https://example.com/.well-known/oauth-authorization-server?key=1",
        ])
    );
}

#[test]
fn a_server_at_the_root_has_one_candidate_for_each_document() {
    let routes: [Route; 1] = [(
        "https://example.com/.well-known/oauth-authorization-server",
        200,
        r#"{"authorization_endpoint": "a", "token_endpoint": "t"}"#,
    )];
    let step = discover_streamable_http_oauth("https://EXAMPLE.com").unwrap();
    let (outcome, asked) = follow(step, &routes);
    assert_eq!(outcome, Some(StreamableHttpOAuthDiscovery { scopes_supported: None }));
    assert_eq!(
        asked,
        strings(&[
            "https://example.com/.well-known/oauth-authorization-server",
            "https://example.com/.well-known/oauth-protected-resource",
        ])
    );
}

#[test]
fn the_search_goes_on_after_failures_and_unusable_documents() {
    let step = search_metadata(strings(&["a", "b", "c", "d", "e"]), strings(&["p", "q", "r", "s"]));
    let (outcome, asked) = follow(
        step,
        &[
            ("a", 0, ""),
            ("b", 200, "no json"),
            ("c", 200, r#"{"token_endpoint": "t"}"#),
            ("d", 200, r#"{"authorization_endpoint": "a", "token_endpoint": "t"}"#),
            ("e", 200, r#"{"authorization_endpoint": "a", "token_endpoint": "t"}"#),
            ("p", 0, ""),
            ("q", 200, "no json"),
            ("r", 200, r#"{"scopes_supported": ["one"]}"#),
            ("s", 200, r#"{"scopes_supported": ["two"]}"#),
        ],
    );
    assert_eq!(
        outcome,
        Some(StreamableHttpOAuthDiscovery { scopes_supported: Some(strings(&["one"])) })
    );
    assert_eq!(asked, strings(&["a", "b", "c", "d", "p", "q", "r"]));
}

#[test]
fn only_a_status_of_200_is_read() {
    let usable = r#"{"authorization_endpoint": "a", "token_endpoint": "t"}"#;
    for status in [100, 199, 201, 204, 301, 401, 404, 500] {
        let step = search_metadata(strings(&["a"]), strings(&["p"]));
        let (outcome, asked) = follow(step, &[("a", status, usable)]);
        assert_eq!(outcome, None);
        assert_eq!(asked, strings(&["a"]));
    }
}

#[test]
fn a_search_without_candidates_finds_nothing() {
    let (outcome, asked) = follow(search_metadata(Vec::new(), strings(&["p"])), &[]);
    assert_eq!(outcome, None);
    assert!(asked.is_empty());
}

#[test]
fn a_text_that_is_no_url_is_refused() {
    match discover_streamable_http_oauth("not-a-url") {
        Err(DiscoveryError::InvalidUrl(message)) => {
            assert_eq!(message, "relative URL without a base")
        }
        _ => panic!("the text should be refused"),
    }
}

#[test]
fn discovery_requests_carry_the_protocol_version() {
    assert_eq!(OAUTH_DISCOVERY_HEADER, "MCP-Protocol-Version");
    assert_eq!(OAUTH_DISCOVERY_VERSION, "2024-11-05");
    assert_eq!(DISCOVERY_TIMEOUT_SECS, 5);
}
