use codex_review_auth::auth_status::{
    action_for_authorization, determine_streamable_http_auth_status, AuthAction, AuthEvent,
    McpAuthStatus,
};
use codex_review_auth::discovery::StreamableHttpOAuthDiscovery;
use reqwest::header::{HeaderMap, HeaderName, HeaderValue};

/// Determines the status from all that may be asked for.
fn status(
    bearer_token_env_var: Option<&str>,
    headers: Result<&HeaderMap, &'static str>,
    tokens: Result<bool, &'static str>,
    discovery: Result<Option<StreamableHttpOAuthDiscovery>, &'static str>,
) -> Result<McpAuthStatus, &'static str> {
    let mut action =
        determine_streamable_http_auth_status(AuthEvent::Asked { bearer_token_env_var });
    loop {
        let event = match action {
            AuthAction::Finish(outcome) => return outcome,
            AuthAction::BuildHeaders => AuthEvent::Headers(headers),
            AuthAction::LookUpTokens => AuthEvent::Tokens(tokens),
            AuthAction::Discover => AuthEvent::Discovered(discovery.clone()),
        };
        action = determine_streamable_http_auth_status(event);
    }
}

fn header(name: &str, value: &str) -> HeaderMap {
    let mut headers = HeaderMap::new();
    headers.insert(
        HeaderName::from_bytes(name.as_bytes()).unwrap(),
        HeaderValue::from_str(value).unwrap(),
    );
    headers
}

fn found() -> Option<StreamableHttpOAuthDiscovery> {
    Some(StreamableHttpOAuthDiscovery { scopes_supported: None })
}

#[test]
fn determine_auth_status_uses_bearer_token_when_authorization_header_present() {
    let headers = header("Authorization", "Bearer token");
    let status = status(None, Ok(&headers), Ok(true), Err("not-a-url"))
        .expect("status should compute");
    assert_eq!(status, McpAuthStatus::BearerToken);
}

#[test]
fn determine_auth_status_uses_bearer_token_when_env_authorization_header_present() {
    let environment = [("CODEX_RMCP_CLIENT_AUTH_STATUS_TEST_TOKEN", "Bearer token")];
    let env_http_headers = [("Authorization", "CODEX_RMCP_CLIENT_AUTH_STATUS_TEST_TOKEN")];
    let mut headers = HeaderMap::new();
    for (name, variable) in env_http_headers {
        for (key, value) in environment {
            if key == variable {
                headers.extend(header(name, value));
            }
        }
    }
    let status = status(None, Ok(&headers), Ok(true), Err("not-a-url"))
        .expect("status should compute");
    assert_eq!(status, McpAuthStatus::BearerToken);
}

#[test]
fn a_configured_bearer_token_precedes_everything() {
    let outcome = status(Some("TOKEN"), Err("headers"), Err("tokens"), Err("discovery"));
    assert_eq!(outcome, Ok(McpAuthStatus::BearerToken));
}

#[test]
fn headers_that_cannot_be_built_fail_the_determination() {
    assert_eq!(status(None, Err("headers"), Ok(true), Ok(found())), Err("headers"));
}

#[test]
fn stored_tokens_precede_discovery() {
    let headers = header("X-Api-Key", "key");
    assert_eq!(status(None, Ok(&headers), Ok(true), Ok(found())), Ok(McpAuthStatus::OAuth));
    assert_eq!(status(None, Ok(&headers), Err("store"), Ok(found())), Err("store"));
}

#[test]
fn discovery_decides_last() {
    let headers = HeaderMap::new();
    assert_eq!(
        status(None, Ok(&headers), Ok(false), Ok(found())),
        Ok(McpAuthStatus::NotLoggedIn)
    );
    assert_eq!(status(None, Ok(&headers), Ok(false), Ok(None)), Ok(McpAuthStatus::Unsupported));
    assert_eq!(
        status(None, Ok(&headers), Ok(false), Err("offline")),
        Ok(McpAuthStatus::Unsupported)
    );
}

#[test]
fn an_authorization_ends_the_determination() {
    assert!(matches!(
        action_for_authorization::<u8>(true),
        AuthAction::Finish(Ok(McpAuthStatus::BearerToken))
    ));
    assert!(matches!(action_for_authorization::<u8>(false), AuthAction::LookUpTokens));
}
