//! Attaching to a remote session: with a saved cookie or a token, in a bounded
//! number of attempts, and never with less encryption than was to be expected.

use crate::crypto;
use crate::crypto::KEY_LEN;
use crate::multiplexer::HostView;
use crate::remote_auth::{AuthResult, RememberedCookie, SessionResponse};
use crate::remote_error::{RemoteClientError, RemoteErrorView};
use crate::remote_url;
use crate::remote_url::{extract_server_url, extract_session_name};
use crate::text;
use vstd::prelude::*;
use vstd::string::*;

verus! {

/// How often a token is asked for.
pub const MAX_AUTH_ATTEMPTS: u32 = 3;

pub const DOWNGRADE_MESSAGE: &'static str = "E2E downgrade refused";

/// Told to the user when the server keeps less than the page promised.
pub const PAGE_DOWNGRADE_NOTICE: &'static str =
    "Refused: this URL advertised end-to-end encryption but the server did not confirm it. Not connecting.";

/// Told to the user when the server keeps less than it did the last time.
pub const SAVED_DOWNGRADE_NOTICE: &'static str =
    "Refused: a previous successful connection to this URL was end-to-end encrypted but the server now reports it is not. Run with --forget to clear the stored state if intentional.";

/// Told to the user when a saved session was encrypted and is not any more.
pub const SESSION_DOWNGRADE_NOTICE: &'static str =
    "Refused: this session was previously end-to-end encrypted but the server now reports it is not. Run with --forget to re-authenticate if you are sure.";

pub const EXPIRED_NOTICE: &'static str = "Session expired, please re-authenticate";

pub const INVALID_TOKEN_NOTICE: &'static str = "Invalid authentication token";

pub const NO_TUNNEL_ID_NOTICE: &'static str =
    "Server reported e2e_encrypted=true but did not include a tunnel_id; cannot derive key. Treating as plaintext.";

/// A session that was attached to. `C` is the connections to the server.
#[derive(Debug)]
pub struct AttachedSession<C> {
    pub connections: C,
    /// With a key, everything the terminal gets and sends is encrypted with it.
    pub e2e_key: Option<[u8; KEY_LEN]>,
    pub e2e_encrypted: bool,
}

impl<C> AttachedSession<C> {
    /// A session without encryption.
    pub fn plain(connections: C) -> (session: AttachedSession<C>)
        ensures
            session == (AttachedSession { connections, e2e_key: None, e2e_encrypted: false }),
    {
        AttachedSession { connections, e2e_key: None, e2e_encrypted: false }
    }
}

/// A session that was remembered.
#[derive(Debug)]
pub struct SavedRemoteSession {
    pub cookie_name: String,
    pub cookie_value: String,
    pub e2e_encrypted: bool,
}

// ---------------------------------------------------------------- the key

/// The key of a viewer who has a token: its hash is what the host knows.
pub open spec fn viewer_key(token: Seq<char>, tunnel_id: Seq<char>) -> Seq<u8> {
    crypto::derived_key(crypto::hashed_token(token), tunnel_id)
}

/// Whether a session has the key that it should: that of the token and the
/// tunnel, where the server encrypts and says for which tunnel, and none
/// otherwise.
pub open spec fn has_key(
    e2e_key: Option<[u8; KEY_LEN]>,
    e2e_encrypted: bool,
    tunnel_id: Option<String>,
    token: Seq<char>,
) -> bool {
    match (e2e_encrypted, tunnel_id) {
        (true, Some(tunnel_id)) => e2e_key matches Some(key) && key@ == viewer_key(
            token,
            tunnel_id@,
        ),
        _ => e2e_key is None,
    }
}

/// The key of a session, where the server encrypts and says for which tunnel.
pub fn derive_e2e_key_if_needed<H>(auth_result: &AuthResult<H>, raw_token: &str) -> (r: Option<
    [u8; KEY_LEN],
>)
    ensures
        has_key(r, auth_result.e2e_encrypted, auth_result.tunnel_id, raw_token@),
{
    if !auth_result.e2e_encrypted {
        return None;
    }
    match &auth_result.tunnel_id {
        Some(tunnel_id) => {
            let token_hash = crypto::hash_token(raw_token);
            Some(crypto::derive_key(token_hash.as_str(), tunnel_id.as_str()))
        },
        None => None,
    }
}

/// Whether the user is told that no key could be derived.
pub fn lacks_tunnel_id<H>(auth_result: &AuthResult<H>) -> (r: bool)
    ensures
        r == (auth_result.e2e_encrypted && auth_result.tunnel_id is None),
{
    auth_result.e2e_encrypted && auth_result.tunnel_id.is_none()
}

/// The host and the viewer have the same key: the host knows the hash of the
/// viewer's token and both know the tunnel.
pub proof fn law_host_and_viewer_share_key(host: HostView, token: Seq<char>, is_read_only: bool)
    ensures
        host.accepted(
            crypto::hashed_token(token),
            is_read_only,
        ).pending_e2e_keys[host.next_client_id] == viewer_key(token, host.tunnel_id),
{
}

// ---------------------------------------------------------------- one attempt

/// Where an attempt goes.
#[derive(Debug)]
pub struct AttachTarget {
    pub server_base_url: String,
    pub session_name: String,
}

/// Where an attempt at this address goes.
pub fn attach_target(url: &str) -> (r: Result<AttachTarget, RemoteClientError>)
    requires
        remote_url::url_fits(url@),
    ensures
        match (remote_url::server_url(url@), remote_url::session_name(url@)) {
            (Ok(base), Ok(name)) => r matches Ok(target) && target.server_base_url@ == base
                && target.session_name@ == name,
            (Err(error), _) => r matches Err(e) && e@ == error,
            (_, Err(error)) => r matches Err(e) && e@ == error,
        },
{
    let server_base_url = match extract_server_url(url) {
        Ok(base) => base,
        Err(e) => {
            return Err(e);
        },
    };
    match extract_session_name(url) {
        Ok(session_name) => Ok(AttachTarget { server_base_url, session_name }),
        Err(e) => Err(e),
    }
}

/// What [`remote_attach`] returns.
pub open spec fn attached_with_token<H, C>(
    auth_result: AuthResult<H>,
    auth_token: Seq<char>,
    connections: Result<C, String>,
    r: Result<(AttachedSession<C>, Option<RememberedCookie>), RemoteClientError>,
) -> bool {
    match connections {
        Ok(c) => {
            &&& r matches Ok((session, remembered))
            &&& session.connections == c
            &&& session.e2e_encrypted == auth_result.e2e_encrypted
            &&& remembered == auth_result.remembered
            &&& has_key(
                session.e2e_key,
                auth_result.e2e_encrypted,
                auth_result.tunnel_id,
                auth_token,
            )
        },
        Err(message) => r matches Err(e) && e@ == RemoteErrorView::ConnectionFailed(message@),
    }
}

/// What comes of a login and of opening the connections.
pub fn remote_attach<H, C>(
    auth_result: AuthResult<H>,
    auth_token: &str,
    connections: Result<C, String>,
) -> (r: Result<(AttachedSession<C>, Option<RememberedCookie>), RemoteClientError>)
    ensures
        attached_with_token(auth_result, auth_token@, connections, r),
{
    let e2e_key = derive_e2e_key_if_needed(&auth_result, auth_token);
    match connections {
        Ok(c) => Ok(
            (
                AttachedSession {
                    connections: c,
                    e2e_key,
                    e2e_encrypted: auth_result.e2e_encrypted,
                },
                auth_result.remembered,
            ),
        ),
        Err(message) => Err(RemoteClientError::ConnectionFailed(message)),
    }
}

/// What comes of a saved cookie and of opening the connections. Without the
/// token there is no key.
pub fn remote_attach_with_session_token<C>(
    session: SessionResponse,
    connections: Result<C, String>,
) -> (r: Result<AttachedSession<C>, RemoteClientError>)
    ensures
        match connections {
            Ok(c) => r == Ok::<AttachedSession<C>, RemoteClientError>(
                AttachedSession {
                    connections: c,
                    e2e_key: None,
                    e2e_encrypted: session.e2e_encrypted,
                },
            ),
            Err(message) => r matches Err(e) && e@ == RemoteErrorView::ConnectionFailed(message@),
        },
{
    match connections {
        Ok(c) => Ok(
            AttachedSession {
                connections: c,
                e2e_key: None,
                e2e_encrypted: session.e2e_encrypted,
            },
        ),
        Err(message) => Err(RemoteClientError::ConnectionFailed(message)),
    }
}

// ---------------------------------------------------------------- the whole

/// How an attachment begins.
#[derive(Debug)]
pub struct AttachPlan {
    pub server_url: String,
    /// What is saved for the server is forgotten.
    pub forget_saved: bool,
    /// What is saved for the server is tried.
    pub try_saved: bool,
    /// Hosts that count as relays, beside the one that everybody knows.
    pub extra_known_hosts: Vec<String>,
}

/// What [`attach_to_remote_session`] returns.
pub open spec fn attach_planned(
    url: Seq<char>,
    has_token: bool,
    forget: bool,
    extra_relay_urls: Seq<Seq<char>>,
    r: Result<AttachPlan, RemoteClientError>,
) -> bool {
    match remote_url::server_url(url) {
        Ok(base) => {
            &&& r matches Ok(plan)
            &&& plan.server_url@ == base
            &&& plan.forget_saved == (forget || has_token)
            &&& plan.try_saved == !has_token
            &&& text::text_views(plan.extra_known_hosts@) == remote_url::lower_hosts(
                extra_relay_urls,
            )
        },
        Err(error) => r matches Err(e) && e@ == error,
    }
}

/// How an attachment begins. A token makes what is saved worthless.
pub fn attach_to_remote_session(
    remote_session_url: &str,
    has_token: bool,
    forget: bool,
    extra_relay_urls: &[String],
) -> (r: Result<AttachPlan, RemoteClientError>)
    requires
        remote_url::url_fits(remote_session_url@),
    ensures
        attach_planned(
            remote_session_url@,
            has_token,
            forget,
            text::text_views(extra_relay_urls@),
            r,
        ),
{
    match extract_server_url(remote_session_url) {
        Ok(server_url) => Ok(
            AttachPlan {
                server_url,
                forget_saved: forget || has_token,
                try_saved: !has_token,
                extra_known_hosts: remote_url::hosts_from_urls(extra_relay_urls),
            },
        ),
        Err(e) => Err(e),
    }
}

/// Whether a saved session can be tried. One that was encrypted cannot: its key
/// needs the token.
pub fn saved_session_usable(saved: &Option<SavedRemoteSession>) -> (r: bool)
    ensures
        r == (saved matches Some(s) && !s.e2e_encrypted),
{
    match saved {
        Some(s) => !s.e2e_encrypted,
        None => false,
    }
}

/// Whether the last connection to the server was encrypted.
pub fn saved_session_e2e(saved: &Option<SavedRemoteSession>) -> (r: bool)
    ensures
        r == (saved matches Some(s) && s.e2e_encrypted),
{
    match saved {
        Some(s) => s.e2e_encrypted,
        None => false,
    }
}

/// What is done after a saved session was tried.
#[derive(Debug)]
pub enum SavedOutcome<C> {
    Attached(AttachedSession<C>),
    /// Forget what is saved, tell the user that it expired, and ask for a token.
    Expired,
    /// Show the notice and give up.
    Refused { notice: &'static str, error: RemoteClientError },
    Failed(RemoteClientError),
}

/// What [`try_to_connect_with_saved_session_token`] returns.
pub open spec fn saved_session_tried<C>(
    saved_e2e: bool,
    attempt: Result<AttachedSession<C>, RemoteClientError>,
    r: SavedOutcome<C>,
) -> bool {
    match attempt {
        Ok(session) => if saved_e2e && !session.e2e_encrypted {
            r matches SavedOutcome::Refused { notice, error } && notice@
                == SESSION_DOWNGRADE_NOTICE@ && error@ == RemoteErrorView::ConnectionFailed(
                DOWNGRADE_MESSAGE@,
            )
        } else {
            r == SavedOutcome::Attached(session)
        },
        Err(RemoteClientError::SessionTokenExpired) => r is Expired,
        Err(e) => r == SavedOutcome::<C>::Failed(e),
    }
}

/// What is done after a saved session was tried.
pub fn try_to_connect_with_saved_session_token<C>(
    saved_e2e: bool,
    attempt: Result<AttachedSession<C>, RemoteClientError>,
) -> (r: SavedOutcome<C>)
    ensures
        saved_session_tried(saved_e2e, attempt, r),
{
    match attempt {
        Ok(session) => {
            if saved_e2e && !session.e2e_encrypted {
                SavedOutcome::Refused {
                    notice: SESSION_DOWNGRADE_NOTICE,
                    error: RemoteClientError::ConnectionFailed(DOWNGRADE_MESSAGE.to_string()),
                }
            } else {
                SavedOutcome::Attached(session)
            }
        },
        Err(RemoteClientError::SessionTokenExpired) => SavedOutcome::Expired,
        Err(e) => SavedOutcome::Failed(e),
    }
}

/// What the user is told before a token is asked for.
pub fn expected_e2e_banner(expected_e2e: bool, url: &str) -> (r: String)
    ensures
        r@ == "Connecting to "@ + url@ + if expected_e2e {
            " — session is \x1b[1;32mend-to-end encrypted\x1b[0m"@
        } else {
            " — session is \x1b[1;33mnot end-to-end encrypted\x1b[0m"@
        },
{
    let start = text::joined("Connecting to ", url);
    if expected_e2e {
        text::joined(start.as_str(), " — session is \x1b[1;32mend-to-end encrypted\x1b[0m")
    } else {
        text::joined(start.as_str(), " — session is \x1b[1;33mnot end-to-end encrypted\x1b[0m")
    }
}

/// The attempts to log in to a server.
#[derive(Debug)]
pub struct AuthRetry {
    pub attempt: u32,
    /// The token to use, where the user gave one beforehand.
    pub current_token: Option<String>,
    pub expected_e2e: bool,
    pub saved_e2e: bool,
}

/// What is saved of a login.
#[derive(Debug)]
pub struct SessionToSave {
    pub server_url: String,
    pub cookie: RememberedCookie,
    pub e2e_encrypted: bool,
}

/// What is done after an attempt.
#[derive(Debug)]
pub enum AttemptOutcome<C> {
    Attached { session: AttachedSession<C>, save: Option<SessionToSave> },
    /// Show the notice and give up.
    Refused { notice: &'static str, error: RemoteClientError },
    /// The token was wrong: ask the user whether to try again.
    AskAgain,
    /// The token was wrong for the last time: show the notice and give up.
    Exhausted { notice: String, error: RemoteClientError },
    Failed(RemoteClientError),
}

pub open spec fn exhausted_notice() -> Seq<char> {
    "Maximum authentication attempts ("@ + text::decimal(MAX_AUTH_ATTEMPTS as nat)
        + ") exceeded."@
}

/// Whether a session keeps less than was to be expected.
pub open spec fn is_downgrade(expected_e2e: bool, saved_e2e: bool, e2e_encrypted: bool) -> bool {
    (expected_e2e || saved_e2e) && !e2e_encrypted
}

/// What [`AuthRetry::finish_attempt`] returns.
pub open spec fn attempt_finished<C>(
    state: AuthRetry,
    url: Seq<char>,
    result: Result<(AttachedSession<C>, Option<RememberedCookie>), RemoteClientError>,
    r: AttemptOutcome<C>,
) -> bool {
    match result {
        Ok((session, remembered)) => if is_downgrade(
            state.expected_e2e,
            state.saved_e2e,
            session.e2e_encrypted,
        ) {
            &&& r matches AttemptOutcome::Refused { notice, error }
            &&& notice@ == if state.expected_e2e {
                PAGE_DOWNGRADE_NOTICE@
            } else {
                SAVED_DOWNGRADE_NOTICE@
            }
            &&& error@ == RemoteErrorView::ConnectionFailed(DOWNGRADE_MESSAGE@)
        } else {
            match remembered {
                Some(cookie) => match remote_url::server_url(url) {
                    Ok(base) => {
                        &&& r matches AttemptOutcome::Attached { session: s, save: Some(saved) }
                        &&& s == session
                        &&& saved.server_url@ == base
                        &&& saved.cookie == cookie
                        &&& saved.e2e_encrypted == session.e2e_encrypted
                    },
                    Err(error) => r matches AttemptOutcome::Failed(e) && e@ == error,
                },
                None => r == (AttemptOutcome::Attached { session, save: None }),
            }
        },
        Err(RemoteClientError::InvalidAuthToken) => if state.attempt >= MAX_AUTH_ATTEMPTS {
            &&& r matches AttemptOutcome::Exhausted { notice, error }
            &&& notice@ == exhausted_notice()
            &&& error == RemoteClientError::InvalidAuthToken
        } else {
            r is AskAgain
        },
        Err(e) => r == AttemptOutcome::<C>::Failed(e),
    }
}

impl AuthRetry {
    /// The user is asked at most [`MAX_AUTH_ATTEMPTS`] times.
    pub open spec fn wf(self) -> bool {
        self.attempt <= MAX_AUTH_ATTEMPTS
    }

    /// Before the first attempt.
    pub fn new(initial_token: Option<String>, expected_e2e: bool, saved_e2e: bool) -> (state:
        AuthRetry)
        ensures
            state.wf(),
            state == (AuthRetry {
                attempt: 0,
                current_token: initial_token,
                expected_e2e,
                saved_e2e,
            }),
    {
        AuthRetry { attempt: 0, current_token: initial_token, expected_e2e, saved_e2e }
    }

    /// Begins an attempt: gives the token to use, or none where the user has to
    /// be asked for it.
    pub fn start_attempt(&mut self) -> (token: Option<String>)
        requires
            old(self).attempt < MAX_AUTH_ATTEMPTS,
        ensures
            *final(self) == (AuthRetry { attempt: (old(self).attempt + 1) as u32, ..*old(self) }),
            match old(self).current_token {
                Some(t) => token matches Some(s) && s@ == t@,
                None => token is None,
            },
    {
        self.attempt = self.attempt + 1;
        match &self.current_token {
            Some(t) => Some(t.clone()),
            None => None,
        }
    }

    /// What is done after an attempt. A session that keeps less than was to be
    /// expected is never handed out.
    pub fn finish_attempt<C>(
        &self,
        remote_session_url: &str,
        result: Result<(AttachedSession<C>, Option<RememberedCookie>), RemoteClientError>,
    ) -> (r: AttemptOutcome<C>)
        requires
            result matches Ok((_, Some(_))) ==> remote_url::url_fits(remote_session_url@),
        ensures
            attempt_finished(*self, remote_session_url@, result, r),
    {
        match result {
            Ok((session, remembered)) => {
                if self.expected_e2e && !session.e2e_encrypted {
                    return AttemptOutcome::Refused {
                        notice: PAGE_DOWNGRADE_NOTICE,
                        error: RemoteClientError::ConnectionFailed(DOWNGRADE_MESSAGE.to_string()),
                    };
                }
                if self.saved_e2e && !session.e2e_encrypted {
                    return AttemptOutcome::Refused {
                        notice: SAVED_DOWNGRADE_NOTICE,
                        error: RemoteClientError::ConnectionFailed(DOWNGRADE_MESSAGE.to_string()),
                    };
                }
                match remembered {
                    Some(cookie) => {
                        let e2e_encrypted = session.e2e_encrypted;
                        match extract_server_url(remote_session_url) {
                            Ok(server_url) => AttemptOutcome::Attached {
                                session,
                                save: Some(SessionToSave { server_url, cookie, e2e_encrypted }),
                            },
                            Err(e) => AttemptOutcome::Failed(e),
                        }
                    },
                    None => AttemptOutcome::Attached { session, save: None },
                }
            },
            Err(RemoteClientError::InvalidAuthToken) => {
                if self.attempt >= MAX_AUTH_ATTEMPTS {
                    let notice = text::joined(
                        text::joined(
                            "Maximum authentication attempts (",
                            text::decimal_text(MAX_AUTH_ATTEMPTS as u64).as_str(),
                        ).as_str(),
                        ") exceeded.",
                    );
                    AttemptOutcome::Exhausted { notice, error: RemoteClientError::InvalidAuthToken }
                } else {
                    AttemptOutcome::AskAgain
                }
            },
            Err(e) => AttemptOutcome::Failed(e),
        }
    }

    /// What the user answered to the question whether to try again. The next
    /// token is asked for.
    pub fn answered(&mut self, answer: Result<bool, String>) -> (r: Result<(), RemoteClientError>)
        ensures
            match answer {
                Ok(true) => r is Ok && *final(self) == (AuthRetry {
                    current_token: None,
                    ..*old(self)
                }),
                Ok(false) => *final(self) == *old(self) && r == Err::<(), RemoteClientError>(
                    RemoteClientError::InvalidAuthToken,
                ),
                Err(message) => {
                    &&& *final(self) == *old(self)
                    &&& r matches Err(e) && e@ == RemoteErrorView::IoError(message@)
                },
            },
    {
        match answer {
            Ok(true) => {
                self.current_token = None;
                Ok(())
            },
            Ok(false) => Err(RemoteClientError::InvalidAuthToken),
            Err(message) => Err(RemoteClientError::IoError(message)),
        }
    }
}

// ---------------------------------------------------------------- laws

/// Where encryption was to be expected, from the page or from the last time, no
/// session without it is handed out.
pub proof fn law_no_downgrade<C>(
    state: AuthRetry,
    url: Seq<char>,
    result: Result<(AttachedSession<C>, Option<RememberedCookie>), RemoteClientError>,
    r: AttemptOutcome<C>,
)
    requires
        attempt_finished(state, url, result, r),
        state.expected_e2e || state.saved_e2e,
    ensures
        r matches AttemptOutcome::Attached { session, .. } ==> session.e2e_encrypted,
{
}

/// Another attempt is offered only as long as there is one left.
pub proof fn law_attempts_bounded<C>(
    state: AuthRetry,
    url: Seq<char>,
    result: Result<(AttachedSession<C>, Option<RememberedCookie>), RemoteClientError>,
    r: AttemptOutcome<C>,
)
    requires
        attempt_finished(state, url, result, r),
    ensures
        r is AskAgain ==> state.attempt < MAX_AUTH_ATTEMPTS && result
            == Err::<(AttachedSession<C>, Option<RememberedCookie>), RemoteClientError>(
            RemoteClientError::InvalidAuthToken,
        ),
{
}

/// What is saved of a login says of the encryption what the session has.
pub proof fn law_saved_flag_is_true<C>(
    state: AuthRetry,
    url: Seq<char>,
    result: Result<(AttachedSession<C>, Option<RememberedCookie>), RemoteClientError>,
    r: AttemptOutcome<C>,
)
    requires
        attempt_finished(state, url, result, r),
    ensures
        r matches AttemptOutcome::Attached { session, save: Some(saved) } ==> saved.e2e_encrypted
            == session.e2e_encrypted,
{
}

} // verus!
