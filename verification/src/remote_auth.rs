//! Logging in to the server of a remote session.

use crate::keyed_map::KeyedMap;
use crate::remote_error::{RemoteClientError, RemoteErrorView};
use crate::text;
use vstd::prelude::*;
use vstd::string::*;

verus! {

/// Where a token is handed in.
pub const LOGIN_ENDPOINT: &'static str = "/command/login";

/// Where a session is asked for.
pub const SESSION_ENDPOINT: &'static str = "/session";

/// How the client calls itself.
pub const USER_AGENT: &'static str = "http-terminal-client/1.0";

/// What the client sends and accepts.
pub const JSON_CONTENT_TYPE: &'static str = "application/json";

/// The cookie of a local web server.
pub const LOCAL_COOKIE: &'static str = "session_token";

/// The cookie of a relay.
pub const RELAY_COOKIE: &'static str = "relay_session";

/// What the server says of the session.
#[derive(Debug)]
pub struct SessionResponse {
    pub web_client_id: String,
    /// Whether the server encrypts what the terminal shows. Where the server
    /// does not say, it does not.
    pub e2e_encrypted: bool,
    /// What the key is derived for, beside the token.
    pub tunnel_id: Option<String>,
}

/// A cookie that is kept for the next time.
#[derive(Debug)]
pub struct RememberedCookie {
    pub name: String,
    pub value: String,
}

/// What is known after a login. `H` is the client that holds the cookies.
#[derive(Debug)]
pub struct AuthResult<H> {
    pub web_client_id: String,
    pub http_client: H,
    pub remembered: Option<RememberedCookie>,
    pub e2e_encrypted: bool,
    pub tunnel_id: Option<String>,
}

/// What came of a request. `T` is what its body says; the error is why it says
/// nothing.
#[derive(Debug)]
pub enum HttpReply<T> {
    /// The request could not be made.
    Unsendable(String),
    /// There was no answer.
    Unreachable(String),
    Answer { status: u16, body: Result<T, String> },
}

/// Where a token is handed in to a server.
pub fn login_url(server_base_url: &str) -> (url: String)
    ensures
        url@ == server_base_url@ + LOGIN_ENDPOINT@,
{
    text::joined(server_base_url, LOGIN_ENDPOINT)
}

/// Where a session is asked for from a server.
pub fn session_url(server_base_url: &str) -> (url: String)
    ensures
        url@ == server_base_url@ + SESSION_ENDPOINT@,
{
    text::joined(server_base_url, SESSION_ENDPOINT)
}

pub open spec fn is_success(status: u16) -> bool {
    200 <= status < 300
}

pub open spec fn status_message(status: u16) -> Seq<char> {
    "Server returned status "@ + text::decimal(status as nat)
}

/// Why a request failed, where it did; `refused` is what it means when the
/// server does not let the client in.
pub open spec fn request_error<T>(reply: HttpReply<T>, refused: RemoteErrorView) -> Option<
    RemoteErrorView,
> {
    match reply {
        HttpReply::Unsendable(message) => Some(RemoteErrorView::Other(message@)),
        HttpReply::Unreachable(message) => Some(RemoteErrorView::ConnectionFailed(message@)),
        HttpReply::Answer { status, .. } => if status == 401 {
            Some(refused)
        } else if !is_success(status) {
            Some(RemoteErrorView::ConnectionFailed(status_message(status)))
        } else {
            None
        },
    }
}

/// What a request gives: the body, where the request went well and the body
/// can be read.
pub open spec fn request_result<T>(
    reply: HttpReply<T>,
    refused: RemoteErrorView,
    r: Result<T, RemoteClientError>,
) -> bool {
    match request_error(reply, refused) {
        Some(error) => r matches Err(e) && e@ == error,
        None => match reply->body {
            Ok(body) => r == Ok::<T, RemoteClientError>(body),
            Err(message) => r matches Err(e) && e@ == RemoteErrorView::Other(message@),
        },
    }
}

/// See [`request_result`].
fn read_reply<T>(reply: HttpReply<T>, refused: RemoteClientError) -> (r: Result<
    T,
    RemoteClientError,
>)
    ensures
        request_result(reply, refused@, r),
{
    match reply {
        HttpReply::Unsendable(message) => Err(RemoteClientError::Other(message)),
        HttpReply::Unreachable(message) => Err(RemoteClientError::ConnectionFailed(message)),
        HttpReply::Answer { status, body } => {
            if status == 401 {
                Err(refused)
            } else if !(200 <= status && status < 300) {
                let message = text::joined(
                    "Server returned status ",
                    text::decimal_text(status as u64).as_str(),
                );
                Err(RemoteClientError::ConnectionFailed(message))
            } else {
                match body {
                    Ok(value) => Ok(value),
                    Err(message) => Err(RemoteClientError::Other(message)),
                }
            }
        },
    }
}

/// Whether the server took the token. The body of its answer does not matter.
pub fn login(reply: HttpReply<()>) -> (r: Result<(), RemoteClientError>)
    ensures
        match request_error(reply, RemoteErrorView::InvalidAuthToken) {
            Some(error) => r matches Err(e) && e@ == error,
            None => r is Ok,
        },
{
    match reply {
        HttpReply::Answer { status, .. } => read_reply(
            HttpReply::Answer { status, body: Ok(()) },
            RemoteClientError::InvalidAuthToken,
        ),
        _ => read_reply(reply, RemoteClientError::InvalidAuthToken),
    }
}

/// The cookie that is kept: the one of a local web server before the one of a
/// relay. Others are not kept.
pub open spec fn kept_cookie(cookies: Map<Seq<char>, String>) -> Option<(Seq<char>, Seq<char>)> {
    if cookies.contains_key(LOCAL_COOKIE@) {
        Some((LOCAL_COOKIE@, cookies[LOCAL_COOKIE@]@))
    } else if cookies.contains_key(RELAY_COOKIE@) {
        Some((RELAY_COOKIE@, cookies[RELAY_COOKIE@]@))
    } else {
        None
    }
}

pub open spec fn cookie_is(r: Option<RememberedCookie>, expected: Option<(Seq<char>, Seq<char>)>) -> bool {
    match expected {
        Some((name, value)) => r matches Some(cookie) && cookie.name@ == name && cookie.value@
            == value,
        None => r is None,
    }
}

/// See [`kept_cookie`].
pub fn first_session_cookie(cookies: &KeyedMap<String, String>) -> (r: Option<RememberedCookie>)
    requires
        cookies.wf(),
    ensures
        cookie_is(r, kept_cookie(cookies@)),
{
    match cookies.get(LOCAL_COOKIE) {
        Some(value) => {
            return Some(
                RememberedCookie { name: LOCAL_COOKIE.to_string(), value: value.clone() },
            );
        },
        None => {},
    }
    match cookies.get(RELAY_COOKIE) {
        Some(value) => Some(
            RememberedCookie { name: RELAY_COOKIE.to_string(), value: value.clone() },
        ),
        None => None,
    }
}

/// What is known after a login, where asking for a session gave `response`.
pub open spec fn authenticated<H>(
    response: Result<SessionResponse, RemoteClientError>,
    http_client: H,
    cookies: Map<Seq<char>, String>,
    remember_me: bool,
    r: Result<AuthResult<H>, RemoteClientError>,
) -> bool {
    match response {
        Ok(s) => {
            &&& r matches Ok(result)
            &&& result.web_client_id == s.web_client_id
            &&& result.http_client == http_client
            &&& cookie_is(
                result.remembered,
                if remember_me {
                    kept_cookie(cookies)
                } else {
                    None
                },
            )
            &&& result.e2e_encrypted == s.e2e_encrypted
            &&& result.tunnel_id == s.tunnel_id
        },
        Err(e) => r == Err::<AuthResult<H>, RemoteClientError>(e),
    }
}

/// What is known after a login: `session` is what came of asking for a session,
/// `cookies` what the server has set. A cookie is kept only where the user
/// wishes it.
pub fn authenticate<H>(
    session: HttpReply<SessionResponse>,
    http_client: H,
    cookies: &KeyedMap<String, String>,
    remember_me: bool,
) -> (r: Result<AuthResult<H>, RemoteClientError>)
    requires
        cookies.wf(),
    ensures
        exists|response: Result<SessionResponse, RemoteClientError>| #[trigger]
            request_result(session, RemoteErrorView::Unauthorized, response) && authenticated(
                response,
                http_client,
                cookies@,
                remember_me,
                r,
            ),
{
    let response = read_reply(session, RemoteClientError::Unauthorized);
    let ghost given = response;
    match response {
        Ok(s) => {
            let remembered = if remember_me {
                first_session_cookie(cookies)
            } else {
                None
            };
            proof {
                assert(request_result(session, RemoteErrorView::Unauthorized, given));
            }
            Ok(
                AuthResult {
                    web_client_id: s.web_client_id,
                    http_client,
                    remembered,
                    e2e_encrypted: s.e2e_encrypted,
                    tunnel_id: s.tunnel_id,
                },
            )
        },
        Err(e) => {
            proof {
                assert(request_result(session, RemoteErrorView::Unauthorized, given));
            }
            Err(e)
        },
    }
}

/// What came of asking for a session with a saved cookie. Where the server does
/// not know the cookie, the session has expired.
pub fn validate_session_token(session: HttpReply<SessionResponse>) -> (r: Result<
    SessionResponse,
    RemoteClientError,
>)
    ensures
        request_result(session, RemoteErrorView::SessionTokenExpired, r),
{
    read_reply(session, RemoteClientError::SessionTokenExpired)
}

} // verus!
