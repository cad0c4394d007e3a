//! The decisions of the OAuth login and of its callback.

use crate::models::{AppConfig, CallbackParams, OAuthSessionData};
use crate::outside::{pairs_view, url_text, url_with_query};
use vstd::prelude::*;
use vstd::string::*;

verus! {

/// Why a callback is turned away before any token is asked for.
#[derive(Debug)]
pub enum CallbackFailure {
    /// The session holds nothing of the login.
    NoSessionData,
    /// The session holds no PKCE verifier.
    NoPkceVerifier,
    /// The session holds no CSRF token.
    NoCsrfToken,
    /// The state that came back is not the CSRF token of the login.
    CsrfMismatch,
}

impl AppConfig {
    /// Makes the settings of what was found for the three variables, each
    /// either its value or the reason why it is missing. The first one that
    /// is missing is reported.
    pub fn from_vars(
        client_id: Result<String, String>,
        client_secret: Result<String, String>,
        redirect_url: Result<String, String>,
    ) -> (r: Result<AppConfig, String>)
        ensures
            match (client_id, client_secret, redirect_url) {
                (Ok(id), Ok(secret), Ok(url)) => r is Ok && r->Ok_0.client_id == id
                    && r->Ok_0.client_secret == secret && r->Ok_0.redirect_url == url,
                (Err(e), _, _) => r is Err && r->Err_0@ == "SUPA_CONNECT_CLIENT_ID not found: "@
                    + e@,
                (Ok(_), Err(e), _) => r is Err && r->Err_0@
                    == "SUPA_CONNECT_CLIENT_SECRET not found: "@ + e@,
                (Ok(_), Ok(_), Err(e)) => r is Err && r->Err_0@ == "REDIRECT_URL not found: "@ + e@,
            },
    {
        let client_id = match client_id {
            Ok(v) => v,
            Err(e) => {
                return Err(String::from_str("SUPA_CONNECT_CLIENT_ID not found: ").concat(e.as_str()));
            },
        };
        let client_secret = match client_secret {
            Ok(v) => v,
            Err(e) => {
                return Err(
                    String::from_str("SUPA_CONNECT_CLIENT_SECRET not found: ").concat(e.as_str()),
                );
            },
        };
        let redirect_url = match redirect_url {
            Ok(v) => v,
            Err(e) => {
                return Err(String::from_str("REDIRECT_URL not found: ").concat(e.as_str()));
            },
        };
        Ok(AppConfig { client_id, client_secret, redirect_url })
    }
}

/// Where a login goes when the session holds an access token already.
pub fn connected_redirect() -> (r: String)
    ensures
        r@ == "/connect-supabase/projects"@,
{
    String::from_str("/connect-supabase/projects")
}

fn pair(key: &str, value: &str) -> (r: (String, String))
    ensures
        r.0@ == key@,
        r.1@ == value@,
{
    (String::from_str(key), String::from_str(value))
}

/// The query of the authorization request.
pub open spec fn authorize_query(config: AppConfig, state: Seq<char>, challenge: Seq<char>) -> Seq<
    (Seq<char>, Seq<char>),
> {
    seq![
        ("client_id"@, config.client_id@),
        ("redirect_uri"@, config.redirect_url@),
        ("response_type"@, "code"@),
        ("state"@, state),
        ("code_challenge"@, challenge),
        ("code_challenge_method"@, "S256"@),
    ]
}

/// The URL to which a login sends the browser: the authorization endpoint
/// with the client, the CSRF token as the state, and the PKCE challenge.
pub fn authorize_url(config: &AppConfig, state: &str, challenge: &str) -> (r: Option<String>)
    ensures
        match r {
            Some(url) => url_text(
                "https://api.supabase.com/v1/oauth/authorize"@,
                authorize_query(*config, state@, challenge@),
            ) == Some(url@),
            None => url_text(
                "https://api.supabase.com/v1/oauth/authorize"@,
                authorize_query(*config, state@, challenge@),
            ) is None,
        },
{
    let mut pairs: Vec<(String, String)> = Vec::new();
    pairs.push(pair("client_id", config.client_id.as_str()));
    pairs.push(pair("redirect_uri", config.redirect_url.as_str()));
    pairs.push(pair("response_type", "code"));
    pairs.push(pair("state", state));
    pairs.push(pair("code_challenge", challenge));
    pairs.push(pair("code_challenge_method", "S256"));
    assert(pairs_view(pairs@) =~= authorize_query(*config, state@, challenge@));
    proof {
        reveal_strlit("https://api.supabase.com/v1/oauth/authorize");
        let base = "https://api.supabase.com/v1/oauth/authorize"@;
        assert forall|i: int| 0 <= i < base.len() implies base[i] != '#' by {}
    }
    url_with_query("https://api.supabase.com/v1/oauth/authorize", &pairs)
}

/// What a login leaves in the session.
pub fn login_session_data(pkce_verifier: String, csrf_token: String) -> (r: OAuthSessionData)
    ensures
        r.pkce_verifier_secret == Some(pkce_verifier),
        r.csrf_token_secret == Some(csrf_token),
{
    OAuthSessionData {
        pkce_verifier_secret: Some(pkce_verifier),
        csrf_token_secret: Some(csrf_token),
    }
}

/// Makes the data of a login of the two keys that an older session holds by
/// themselves. Both are needed.
pub fn session_data_from_keys(pkce_verifier: Option<String>, csrf_token: Option<String>) -> (r:
    Result<OAuthSessionData, CallbackFailure>)
    ensures
        match r {
            Ok(data) => pkce_verifier is Some && csrf_token is Some && data.pkce_verifier_secret
                == pkce_verifier && data.csrf_token_secret == csrf_token,
            Err(failure) => failure is NoSessionData && (pkce_verifier is None || csrf_token is None),
        },
{
    if pkce_verifier.is_some() && csrf_token.is_some() {
        Ok(OAuthSessionData { pkce_verifier_secret: pkce_verifier, csrf_token_secret: csrf_token })
    } else {
        Err(CallbackFailure::NoSessionData)
    }
}

/// Checks a callback against what the login left in the session, and hands
/// out the PKCE verifier where the state that came back is the CSRF token of
/// the login.
pub fn check_callback(data: OAuthSessionData, params: &CallbackParams) -> (r: Result<
    String,
    CallbackFailure,
>)
    ensures
        match r {
            Ok(verifier) => data.pkce_verifier_secret == Some(verifier) && data.csrf_token_secret
                is Some && data.csrf_token_secret->Some_0@ == params.state@,
            Err(CallbackFailure::NoPkceVerifier) => data.pkce_verifier_secret is None,
            Err(CallbackFailure::NoCsrfToken) => data.pkce_verifier_secret is Some
                && data.csrf_token_secret is None,
            Err(CallbackFailure::CsrfMismatch) => data.pkce_verifier_secret is Some
                && data.csrf_token_secret is Some && data.csrf_token_secret->Some_0@ != params.state@,
            Err(CallbackFailure::NoSessionData) => false,
        },
{
    let pkce_verifier_secret = match data.pkce_verifier_secret {
        Some(v) => v,
        None => {
            return Err(CallbackFailure::NoPkceVerifier);
        },
    };
    let csrf_secret = match data.csrf_token_secret {
        Some(v) => v,
        None => {
            return Err(CallbackFailure::NoCsrfToken);
        },
    };
    if csrf_secret != params.state {
        return Err(CallbackFailure::CsrfMismatch);
    }
    Ok(pkce_verifier_secret)
}

/// The page shown for a callback that is turned away.
pub open spec fn failure_text(failure: CallbackFailure) -> Seq<char> {
    match failure {
        CallbackFailure::NoSessionData =>
            "<h1>Error</h1><p>No session data found. Please try logging in again.</p><p><a href=\"/connect-supabase/login\">Back to Login</a></p>"@,
        CallbackFailure::NoPkceVerifier =>
            "<h1>Error</h1><p>No PKCE verifier found in session. Please try logging in again.</p><p><a href=\"/connect-supabase/login\">Back to Login</a></p>"@,
        CallbackFailure::NoCsrfToken =>
            "<h1>Error</h1><p>No CSRF token found in session. Please try logging in again.</p><p><a href=\"/connect-supabase/login\">Back to Login</a></p>"@,
        CallbackFailure::CsrfMismatch =>
            "<h1>Error</h1><p>CSRF token mismatch. Please try logging in again.</p>"@,
    }
}

/// Writes the page for a callback that is turned away.
pub fn failure_page(failure: &CallbackFailure) -> (r: String)
    ensures
        r@ == failure_text(*failure),
{
    match failure {
        CallbackFailure::NoSessionData => String::from_str(
            "<h1>Error</h1><p>No session data found. Please try logging in again.</p><p><a href=\"/connect-supabase/login\">Back to Login</a></p>",
        ),
        CallbackFailure::NoPkceVerifier => String::from_str(
            "<h1>Error</h1><p>No PKCE verifier found in session. Please try logging in again.</p><p><a href=\"/connect-supabase/login\">Back to Login</a></p>",
        ),
        CallbackFailure::NoCsrfToken => String::from_str(
            "<h1>Error</h1><p>No CSRF token found in session. Please try logging in again.</p><p><a href=\"/connect-supabase/login\">Back to Login</a></p>",
        ),
        CallbackFailure::CsrfMismatch => String::from_str(
            "<h1>Error</h1><p>CSRF token mismatch. Please try logging in again.</p>",
        ),
    }
}

/// The fields of the request that exchanges the code for a token.
pub open spec fn token_form(config: AppConfig, code: Seq<char>, verifier: Seq<char>) -> Seq<
    (Seq<char>, Seq<char>),
> {
    seq![
        ("client_id"@, config.client_id@),
        ("client_secret"@, config.client_secret@),
        ("code"@, code),
        ("code_verifier"@, verifier),
        ("grant_type"@, "authorization_code"@),
        ("redirect_uri"@, config.redirect_url@),
    ]
}

/// Lists the fields of the request that exchanges the code for a token.
pub fn token_request_form(config: &AppConfig, params: &CallbackParams, verifier: &str) -> (r: Vec<
    (String, String),
>)
    ensures
        pairs_view(r@) == token_form(*config, params.code@, verifier@),
{
    let mut pairs: Vec<(String, String)> = Vec::new();
    pairs.push(pair("client_id", config.client_id.as_str()));
    pairs.push(pair("client_secret", config.client_secret.as_str()));
    pairs.push(pair("code", params.code.as_str()));
    pairs.push(pair("code_verifier", verifier));
    pairs.push(pair("grant_type", "authorization_code"));
    pairs.push(pair("redirect_uri", config.redirect_url.as_str()));
    assert(pairs_view(pairs@) =~= token_form(*config, params.code@, verifier@));
    pairs
}

/// The page shown where the exchange of the code failed for `reason`.
pub fn exchange_failed_page(reason: &str) -> (r: String)
    ensures
        r@ == "<h1>Error</h1><p>Failed to exchange token: "@ + reason@
            + ". Please try logging in again.</p>"@,
{
    String::from_str("<h1>Error</h1><p>Failed to exchange token: ").concat(reason).concat(
        ". Please try logging in again.</p>",
    )
}

/// The reason given where the token endpoint answers with a status that is no
/// success.
pub fn http_exchange_reason(status: &str, body: &str) -> (r: String)
    ensures
        r@ == "HTTP "@ + status@ + " - "@ + body@,
{
    String::from_str("HTTP ").concat(status).concat(" - ").concat(body)
}

/// The page shown where the answer of the token endpoint could not be read.
pub fn unreadable_token_page(reason: &str) -> (r: String)
    ensures
        r@ == "<h1>Error</h1><p>Failed to parse token response: "@ + reason@
            + ". Please try logging in again.</p>"@,
{
    String::from_str("<h1>Error</h1><p>Failed to parse token response: ").concat(reason).concat(
        ". Please try logging in again.</p>",
    )
}

/// The page shown once the access token is stored: it sends the browser on to
/// the projects.
pub open spec fn success_text() -> Seq<char> {
    r#"
        <!DOCTYPE html>
        <html>
        <head>
            <meta http-equiv="refresh" content="0;url=/migrate">
            <title>Redirecting...</title>
        </head>
        <body>
            <p>Authentication successful! Redirecting to your projects...</p>
            <p>If you are not redirected, <a href="/migrate">click here</a>.</p>
        </body>
        </html>
        "#@
}

/// Writes the page shown once the access token is stored.
pub fn success_page() -> (r: String)
    ensures
        r@ == success_text(),
{
    String::from_str(
        r#"
        <!DOCTYPE html>
        <html>
        <head>
            <meta http-equiv="refresh" content="0;url=/migrate">
            <title>Redirecting...</title>
        </head>
        <body>
            <p>Authentication successful! Redirecting to your projects...</p>
            <p>If you are not redirected, <a href="/migrate">click here</a>.</p>
        </body>
        </html>
        "#,
    )
}

} // verus!
