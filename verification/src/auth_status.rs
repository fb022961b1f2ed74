//! The authentication status of a streamable HTTP MCP server.

use reqwest::header::{HeaderMap, HeaderValue};
use vstd::prelude::*;

use crate::discovery::StreamableHttpOAuthDiscovery;
use crate::headers::{authorized, has_authorization, header_names};

verus! {

/// How an MCP server is authenticated to.
#[derive(Debug, Clone, Copy, PartialEq, Eq, Structural)]
pub enum McpAuthStatus {
    /// Nothing is known that would authenticate.
    Unsupported,
    /// The server supports an OAuth login, and there is none.
    NotLoggedIn,
    /// A bearer token is configured.
    BearerToken,
    /// OAuth tokens are stored.
    OAuth,
}

/// What the caller knows at a stage of the determination. Errors have the caller's type.
pub enum AuthEvent<'a, E> {
    /// The status is asked for.
    Asked { bearer_token_env_var: Option<&'a str> },
    /// The default headers are built, or could not be.
    Headers(Result<&'a HeaderMap<HeaderValue>, E>),
    /// The credentials store is asked for OAuth tokens.
    Tokens(Result<bool, E>),
    /// The discovery of OAuth support has come to its end.
    Discovered(Result<Option<StreamableHttpOAuthDiscovery>, E>),
}

/// What the caller does next.
pub enum AuthAction<E> {
    /// Build the default headers.
    BuildHeaders,
    /// Ask the credentials store whether there are OAuth tokens for the server.
    LookUpTokens,
    /// Discover whether the server supports OAuth.
    Discover,
    /// Nothing: this is the outcome.
    Finish(Result<McpAuthStatus, E>),
}

/// What follows from an event.
pub open spec fn auth_action<E>(event: AuthEvent<E>) -> AuthAction<E> {
    match event {
        AuthEvent::Asked { bearer_token_env_var } => if bearer_token_env_var is Some {
            AuthAction::Finish(Ok(McpAuthStatus::BearerToken))
        } else {
            AuthAction::BuildHeaders
        },
        AuthEvent::Headers(Err(error)) => AuthAction::Finish(Err(error)),
        AuthEvent::Headers(Ok(headers)) => if authorized(*headers) {
            AuthAction::Finish(Ok(McpAuthStatus::BearerToken))
        } else {
            AuthAction::LookUpTokens
        },
        AuthEvent::Tokens(Err(error)) => AuthAction::Finish(Err(error)),
        AuthEvent::Tokens(Ok(stored)) => if stored {
            AuthAction::Finish(Ok(McpAuthStatus::OAuth))
        } else {
            AuthAction::Discover
        },
        AuthEvent::Discovered(Ok(Some(_))) => AuthAction::Finish(Ok(McpAuthStatus::NotLoggedIn)),
        AuthEvent::Discovered(_) => AuthAction::Finish(Ok(McpAuthStatus::Unsupported)),
    }
}

/// Determines the authentication status of a server, one stage at a time: a configured bearer
/// token comes first, then an authorization header, then stored tokens, then discovery. A
/// discovery that fails counts as no support.
pub fn determine_streamable_http_auth_status<E>(event: AuthEvent<E>) -> (r: AuthAction<E>)
    ensures
        r == auth_action(event),
{
    match event {
        AuthEvent::Asked { bearer_token_env_var } => {
            if bearer_token_env_var.is_some() {
                AuthAction::Finish(Ok(McpAuthStatus::BearerToken))
            } else {
                AuthAction::BuildHeaders
            }
        },
        AuthEvent::Headers(Err(error)) => AuthAction::Finish(Err(error)),
        AuthEvent::Headers(Ok(headers)) => action_for_authorization(has_authorization(headers)),
        AuthEvent::Tokens(Err(error)) => AuthAction::Finish(Err(error)),
        AuthEvent::Tokens(Ok(stored)) => {
            if stored {
                AuthAction::Finish(Ok(McpAuthStatus::OAuth))
            } else {
                AuthAction::Discover
            }
        },
        AuthEvent::Discovered(Ok(Some(_))) => AuthAction::Finish(Ok(McpAuthStatus::NotLoggedIn)),
        AuthEvent::Discovered(_) => AuthAction::Finish(Ok(McpAuthStatus::Unsupported)),
    }
}

/// What follows once it is known whether the default headers hold an authorization.
pub fn action_for_authorization<E>(present: bool) -> (r: AuthAction<E>)
    ensures
        r == if present {
            AuthAction::<E>::Finish(Ok(McpAuthStatus::BearerToken))
        } else {
            AuthAction::LookUpTokens
        },
{
    if present {
        AuthAction::Finish(Ok(McpAuthStatus::BearerToken))
    } else {
        AuthAction::LookUpTokens
    }
}

/// Whether a server supports an OAuth login, from the outcome of its discovery.
pub fn supports_oauth_login<E>(
    discovery: Result<Option<StreamableHttpOAuthDiscovery>, E>,
) -> (r: Result<bool, E>)
    ensures
        r == match discovery {
            Ok(found) => Ok::<bool, E>(found is Some),
            Err(error) => Err(error),
        },
{
    match discovery {
        Ok(found) => Ok(found.is_some()),
        Err(error) => Err(error),
    }
}

/// All that the determination of one status may ask for.
pub struct AuthAnswers<'a, E> {
    pub bearer_token_env_var: Option<&'a str>,
    pub headers: Result<&'a HeaderMap<HeaderValue>, E>,
    pub tokens: Result<bool, E>,
    pub discovery: Result<Option<StreamableHttpOAuthDiscovery>, E>,
}

/// The outcome when the caller does what `action` says and `answers` tells what comes of it.
pub open spec fn auth_outcome<E>(action: AuthAction<E>, answers: AuthAnswers<E>) -> Result<
    McpAuthStatus,
    E,
>
    decreases
            match action {
                AuthAction::BuildHeaders => 3int,
                AuthAction::LookUpTokens => 2int,
                AuthAction::Discover => 1int,
                AuthAction::Finish(_) => 0int,
            },
{
    match action {
        AuthAction::BuildHeaders => auth_outcome(
            auth_action(AuthEvent::Headers(answers.headers)),
            answers,
        ),
        AuthAction::LookUpTokens => auth_outcome(
            auth_action(AuthEvent::Tokens(answers.tokens)),
            answers,
        ),
        AuthAction::Discover => auth_outcome(
            auth_action(AuthEvent::Discovered(answers.discovery)),
            answers,
        ),
        AuthAction::Finish(outcome) => outcome,
    }
}

/// A bearer token, configured or in the headers, precedes stored tokens, and those precede
/// discovery; what comes later is not looked at. Only building the headers and looking up tokens
/// can fail the determination, and discovery never does.
pub proof fn law_auth_status_precedence<E>(answers: AuthAnswers<E>)
    ensures
        auth_outcome(
            auth_action(AuthEvent::Asked { bearer_token_env_var: answers.bearer_token_env_var }),
            answers,
        ) == if answers.bearer_token_env_var is Some {
            Ok(McpAuthStatus::BearerToken)
        } else if answers.headers is Err {
            Err(answers.headers->Err_0)
        } else if authorized(*answers.headers->Ok_0) {
            Ok(McpAuthStatus::BearerToken)
        } else if answers.tokens is Err {
            Err(answers.tokens->Err_0)
        } else if answers.tokens->Ok_0 {
            Ok(McpAuthStatus::OAuth)
        } else if answers.discovery is Ok && answers.discovery->Ok_0 is Some {
            Ok(McpAuthStatus::NotLoggedIn)
        } else {
            Ok(McpAuthStatus::Unsupported)
        },
{
    reveal_with_fuel(auth_outcome, 4);
}

/// What each action tells of the event that led to it: every status has its one cause, but for a
/// bearer token, which has two, and every question is asked where the answer before it decided
/// nothing. A failed discovery is no failure.
pub proof fn law_what_an_auth_action_means<E>(event: AuthEvent<E>, error: E)
    ensures
        ({
            let action = auth_action(event);
            let done = |status: McpAuthStatus| action == AuthAction::<E>::Finish(Ok(status));
            let unset = event matches AuthEvent::Asked { bearer_token_env_var: None };
            let set = event matches AuthEvent::Asked { bearer_token_env_var: Some(_) };
            let sent = event matches AuthEvent::Headers(Ok(headers)) && header_names(
                *headers,
            ).contains("authorization"@);
            let unsent = event matches AuthEvent::Headers(Ok(headers)) && !header_names(
                *headers,
            ).contains("authorization"@);
            let found = event matches AuthEvent::Discovered(Ok(Some(_)));
            &&& action is BuildHeaders <==> unset
            &&& action is LookUpTokens <==> unsent
            &&& action is Discover <==> event == AuthEvent::<E>::Tokens(Ok(false))
            &&& done(McpAuthStatus::BearerToken) <==> set || sent
            &&& done(McpAuthStatus::OAuth) <==> event == AuthEvent::<E>::Tokens(Ok(true))
            &&& done(McpAuthStatus::NotLoggedIn) <==> found
            &&& done(McpAuthStatus::Unsupported) <==> event is Discovered && !found
            &&& action == AuthAction::<E>::Finish(Err(error)) <==> event == AuthEvent::<E>::Headers(
                Err(error),
            ) || event == AuthEvent::<E>::Tokens(Err(error))
        }),
{
}

} // verus!
