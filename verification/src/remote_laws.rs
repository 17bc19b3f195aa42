//! What holds of attaching to a remote session, whatever the server answers.

use crate::crypto;
use crate::remote_attach;
use crate::remote_attach::{
    AttachPlan, AttachedSession, AttemptOutcome, AuthRetry, SavedOutcome, MAX_AUTH_ATTEMPTS,
    PAGE_DOWNGRADE_NOTICE, SAVED_DOWNGRADE_NOTICE,
};
use crate::remote_auth;
use crate::remote_auth::{AuthResult, HttpReply, RememberedCookie, SessionResponse};
use crate::remote_error::{RemoteClientError, RemoteErrorView};
use crate::remote_url;
use crate::text;
use crate::text_laws;
use vstd::prelude::*;

verus! {

// ---------------------------------------------------------------- requests

/// A request gives a body exactly if the server answered with a status in the
/// two hundreds and the body could be read; then it is that body. The status 401
/// means that the client was refused, and any other one that the connection
/// failed.
pub proof fn law_request_outcomes<T>(
    reply: HttpReply<T>,
    refused: RemoteErrorView,
    r: Result<T, RemoteClientError>,
)
    requires
        remote_auth::request_result(reply, refused, r),
    ensures
        r is Ok <==> (reply matches HttpReply::Answer { status, body } && status / 100 == 2
            && body is Ok),
        r is Ok ==> reply->body == Ok::<T, String>(r->Ok_0),
        reply matches HttpReply::Answer { status, .. } ==> status == 401 ==> (r matches Err(e) && e@
            == refused),
        reply matches HttpReply::Answer { status, .. } ==> status != 401 && status / 100 != 2 ==> (
        r matches Err(e) && e@ matches RemoteErrorView::ConnectionFailed(words)
            && text::ends_with(words, text::decimal(status as nat))),
        reply matches HttpReply::Answer { status, body: Err(message) } ==> status / 100 == 2 ==> (
        r matches Err(e) && e@ == RemoteErrorView::Other(message@)),
        reply matches HttpReply::Unsendable(message) ==> (r matches Err(e) && e@
            == RemoteErrorView::Other(message@)),
        reply matches HttpReply::Unreachable(message) ==> (r matches Err(e) && e@
            == RemoteErrorView::ConnectionFailed(message@)),
{
    if let HttpReply::Answer { status, body } = reply {
        text_laws::law_occurrence(
            "Server returned status "@,
            text::decimal(status as nat),
            Seq::empty(),
        );
    }
}

/// The cookie of a local web server is kept where there is one, and otherwise
/// that of a relay; with its own name and its value. Other cookies make no
/// difference.
pub proof fn law_which_cookie_is_kept(
    cookies: Map<Seq<char>, String>,
    name: Seq<char>,
    value: String,
)
    ensures
        remote_auth::kept_cookie(cookies.insert(remote_auth::LOCAL_COOKIE@, value)) == Some(
            (remote_auth::LOCAL_COOKIE@, value@),
        ),
        remote_auth::kept_cookie(
            cookies.remove(remote_auth::LOCAL_COOKIE@).insert(remote_auth::RELAY_COOKIE@, value),
        ) == Some((remote_auth::RELAY_COOKIE@, value@)),
        remote_auth::kept_cookie(
            cookies.remove(remote_auth::LOCAL_COOKIE@).remove(remote_auth::RELAY_COOKIE@),
        ) is None,
        name != remote_auth::LOCAL_COOKIE@ && name != remote_auth::RELAY_COOKIE@
            ==> remote_auth::kept_cookie(cookies.insert(name, value)) == remote_auth::kept_cookie(
            cookies,
        ),
        remote_auth::LOCAL_COOKIE@ != remote_auth::RELAY_COOKIE@,
{
    reveal_strlit("session_token");
    reveal_strlit("relay_session");
    assert(remote_auth::LOCAL_COOKIE@[0] != remote_auth::RELAY_COOKIE@[0]);
}

/// What is known after a login is what the server said of the session; a cookie
/// is remembered only where that is wished for. Where the session was refused,
/// that is the result.
pub proof fn law_login_result<H>(
    response: Result<SessionResponse, RemoteClientError>,
    http_client: H,
    cookies: Map<Seq<char>, String>,
    remember_me: bool,
    r: Result<AuthResult<H>, RemoteClientError>,
)
    requires
        remote_auth::authenticated(response, http_client, cookies, remember_me, r),
    ensures
        r is Ok <==> response is Ok,
        response matches Err(e) ==> r == Err::<AuthResult<H>, RemoteClientError>(e),
        r matches Ok(result) ==> {
            let session = response->Ok_0;
            &&& result.web_client_id == session.web_client_id
            &&& result.e2e_encrypted == session.e2e_encrypted
            &&& result.tunnel_id == session.tunnel_id
            &&& result.http_client == http_client
            &&& !remember_me ==> result.remembered is None
            &&& remember_me ==> (result.remembered is Some <==> cookies.contains_key(
                "session_token"@,
            ) || cookies.contains_key("relay_session"@))
            &&& result.remembered matches Some(cookie) ==> cookies.contains_key(cookie.name@)
                && cookies[cookie.name@]@ == cookie.value@
        },
{
}

// ---------------------------------------------------------------- attempts

/// A session is attached exactly if its connections could be opened. It is as
/// encrypted as the login said, and has a key exactly if it is encrypted and the
/// server said for which tunnel: the key of the token's hash and that tunnel.
pub proof fn law_attached_session<H, C>(
    auth_result: AuthResult<H>,
    auth_token: Seq<char>,
    connections: Result<C, String>,
    r: Result<(AttachedSession<C>, Option<RememberedCookie>), RemoteClientError>,
)
    requires
        remote_attach::attached_with_token(auth_result, auth_token, connections, r),
    ensures
        r is Ok <==> connections is Ok,
        connections matches Err(message) ==> (r matches Err(e) && e@
            == RemoteErrorView::ConnectionFailed(message@)),
        r matches Ok((session, remembered)) ==> {
            &&& connections == Ok::<C, String>(session.connections)
            &&& remembered == auth_result.remembered
            &&& session.e2e_encrypted == auth_result.e2e_encrypted
            &&& session.e2e_key is Some <==> auth_result.e2e_encrypted && auth_result.tunnel_id
                is Some
            &&& session.e2e_key matches Some(key) ==> key@ == crypto::derived_key(
                crypto::hashed_token(auth_token),
                auth_result.tunnel_id->0@,
            )
        },
{
}

/// Whoever has a token does not use what is saved, and forgets it; whoever has
/// none tries it, and forgets it only when asked to. An address that cannot be
/// read ends the attempt before it begins.
pub proof fn law_attach_plan(
    url: Seq<char>,
    has_token: bool,
    forget: bool,
    extra_relay_urls: Seq<Seq<char>>,
    r: Result<AttachPlan, RemoteClientError>,
)
    requires
        remote_attach::attach_planned(url, has_token, forget, extra_relay_urls, r),
    ensures
        r is Ok <==> remote_url::server_url(url) is Ok,
        r matches Ok(plan) ==> {
            &&& has_token ==> plan.forget_saved && !plan.try_saved
            &&& !has_token ==> plan.try_saved && plan.forget_saved == forget
            &&& remote_url::server_url(url) == Ok::<Seq<char>, RemoteErrorView>(plan.server_url@)
            &&& text::text_views(plan.extra_known_hosts@) == remote_url::lower_hosts(
                extra_relay_urls,
            )
        },
{
}

/// A saved session that could be attached to is handed out, unless it has lost
/// its encryption. Only one that has expired is given up for a new login; any
/// other failure is final.
pub proof fn law_saved_session<C>(
    saved_e2e: bool,
    attempt: Result<AttachedSession<C>, RemoteClientError>,
    r: SavedOutcome<C>,
)
    requires
        remote_attach::saved_session_tried(saved_e2e, attempt, r),
    ensures
        r matches SavedOutcome::Attached(session) ==> attempt == Ok::<
            AttachedSession<C>,
            RemoteClientError,
        >(session) && (saved_e2e ==> session.e2e_encrypted),
        attempt matches Ok(session) ==> (r is Attached <==> !saved_e2e || session.e2e_encrypted)
            && (r is Refused <==> saved_e2e && !session.e2e_encrypted),
        r is Expired <==> (attempt matches Err(e) && e is SessionTokenExpired),
        attempt matches Err(e) ==> !(e is SessionTokenExpired) ==> r == SavedOutcome::<C>::Failed(
            e,
        ),
{
}

/// A session that is encrypted, or one from which no encryption was expected, is
/// handed out as it is. A cookie that is to be remembered is saved with it, for
/// the server of the address.
pub proof fn law_good_attempt_attaches<C>(
    state: AuthRetry,
    url: Seq<char>,
    session: AttachedSession<C>,
    remembered: Option<RememberedCookie>,
    r: AttemptOutcome<C>,
)
    requires
        remote_attach::attempt_finished(state, url, Ok((session, remembered)), r),
        session.e2e_encrypted || (!state.expected_e2e && !state.saved_e2e),
    ensures
        remembered is None || remote_url::server_url(url) is Ok ==> (
        r matches AttemptOutcome::Attached { session: s, save } && s == session && (save is Some
            <==> remembered is Some)),
        r matches AttemptOutcome::Attached { save: Some(saved), .. } ==> remembered == Some(
            saved.cookie,
        ) && remote_url::server_url(url) == Ok::<Seq<char>, RemoteErrorView>(saved.server_url@),
        !(r is Refused) && !(r is AskAgain) && !(r is Exhausted),
{
}

/// A session that keeps less than was expected is refused, with the notice that
/// says whether the page or the last connection promised more.
pub proof fn law_downgrade_is_refused<C>(
    state: AuthRetry,
    url: Seq<char>,
    session: AttachedSession<C>,
    remembered: Option<RememberedCookie>,
    r: AttemptOutcome<C>,
)
    requires
        remote_attach::attempt_finished(state, url, Ok((session, remembered)), r),
        !session.e2e_encrypted,
        state.expected_e2e || state.saved_e2e,
    ensures
        r matches AttemptOutcome::Refused { notice, error } && (state.expected_e2e ==> notice@
            == PAGE_DOWNGRADE_NOTICE@) && (!state.expected_e2e ==> notice@
            == SAVED_DOWNGRADE_NOTICE@) && error@ == RemoteErrorView::ConnectionFailed(
            "E2E downgrade refused"@,
        ),
{
}

/// After a wrong token the user may try again, until there have been three
/// attempts; any other failure is final and stays what it was.
pub proof fn law_failed_attempt<C>(
    state: AuthRetry,
    url: Seq<char>,
    error: RemoteClientError,
    r: AttemptOutcome<C>,
)
    requires
        remote_attach::attempt_finished(state, url, Err(error), r),
    ensures
        error is InvalidAuthToken && state.attempt < 3 <==> r is AskAgain,
        error is InvalidAuthToken && state.attempt >= 3 <==> r is Exhausted,
        r matches AttemptOutcome::Exhausted { notice, error: told } ==> told is InvalidAuthToken
            && text::contains_text(notice@, text::decimal(3)),
        !(error is InvalidAuthToken) ==> r == AttemptOutcome::<C>::Failed(error),
        MAX_AUTH_ATTEMPTS == 3,
{
    let start = "Maximum authentication attempts ("@;
    text_laws::law_occurrence(start, text::decimal(3), ") exceeded."@);
}

// ---------------------------------------------------------------- addresses

/// A host is under itself and under what stands behind a dot in it, and under
/// nothing else: another host that merely ends in the same letters is not.
pub proof fn law_hosts_under(label: Seq<char>, candidate: Seq<char>)
    requires
        candidate.len() > 0,
    ensures
        remote_url::is_under(candidate, candidate),
        remote_url::is_under(label + seq!['.'] + candidate, candidate),
        label.len() > 0 && label.last() != '.' ==> !remote_url::is_under(
            label + candidate,
            candidate,
        ),
        !remote_url::is_under(candidate, Seq::empty()),
{
    let suffix = seq!['.'] + candidate;
    let under = label + seq!['.'] + candidate;
    assert(under.subrange(under.len() - suffix.len(), under.len() as int) =~= suffix);
    let alike = label + candidate;
    if label.len() > 0 && label.last() != '.' {
        let at = alike.len() - suffix.len();
        assert(alike.subrange(at, alike.len() as int)[0] == alike[at]);
        assert(alike[at] == label.last());
        assert(suffix[0] == '.');
    }
}

/// A host that is under another one ends in it, behind a dot.
pub proof fn law_host_under_ends_in_it(host: Seq<char>, candidate: Seq<char>)
    requires
        remote_url::is_under(host, candidate),
        host != candidate,
    ensures
        host.len() > candidate.len(),
        host == host.take(host.len() - candidate.len() - 1) + seq!['.'] + candidate,
{
    let suffix = seq!['.'] + candidate;
    text_laws::law_occurrence_splits(host, suffix, 0);
    assert(host =~= host.take(host.len() - candidate.len() - 1) + seq!['.'] + candidate);
}

/// One more known host makes the hosts under it relays, and no others; blanks
/// round it and the case of its letters make no difference. With no other known
/// host only the hosts under the well-known relay are relays.
pub proof fn law_known_relays(host: Seq<char>, extra: Seq<Seq<char>>, known: Seq<char>)
    ensures
        remote_url::is_known_relay(host, extra.push(known)) <==> remote_url::is_known_relay(
            host,
            extra,
        ) || remote_url::is_under(
            text::lowercased(host),
            text::lowercased(text::trimmed(known)),
        ),
        remote_url::is_known_relay(host, Seq::empty()) <==> remote_url::is_under(
            text::lowercased(host),
            "zellij.dev"@,
        ),
{
    let more = extra.push(known);
    let lower = text::lowercased(host);
    assert(more[extra.len() as int] == known);
    assert(forall|i: int| 0 <= i < extra.len() ==> #[trigger] extra[i] == more[i]);
    assert(forall|i: int| 0 <= i < extra.len() ==> #[trigger] more[i] == extra[i]);
    if remote_url::is_known_relay(host, extra) && !remote_url::is_under(
        lower,
        remote_url::KNOWN_RELAY_HOST@,
    ) {
        let i = choose|i: int|
            0 <= i < extra.len() && remote_url::is_under(
                lower,
                text::lowercased(text::trimmed(#[trigger] extra[i])),
            );
        assert(more[i] == extra[i]);
    }
}

/// The hosts of a list of addresses are the hosts of its parts, in order; an
/// address without a host adds none.
pub proof fn law_hosts_add_up(a: Seq<Seq<char>>, b: Seq<Seq<char>>, url: Seq<char>)
    ensures
        remote_url::lower_hosts(a + b) == remote_url::lower_hosts(a) + remote_url::lower_hosts(b),
        remote_url::lower_hosts(seq![url]) == match remote_url::parsed_url(url) {
            Ok((Some(host), _)) => seq![text::lowercased(host)],
            _ => Seq::empty(),
        },
    decreases b.len(),
{
    if b.len() == 0 {
        assert(a + b =~= a);
        assert(remote_url::lower_hosts(a) + Seq::<Seq<char>>::empty() =~= remote_url::lower_hosts(a));
    } else {
        law_hosts_add_up(a, b.drop_last(), url);
        assert((a + b).drop_last() =~= a + b.drop_last());
        assert(remote_url::lower_hosts(a + b) =~= remote_url::lower_hosts(a)
            + remote_url::lower_hosts(b));
    }
    reveal_with_fuel(remote_url::lower_hosts, 2);
    assert(seq![url].drop_last() =~= Seq::<Seq<char>>::empty());
    assert(remote_url::lower_hosts(seq![url]) =~= match remote_url::parsed_url(url) {
        Ok((Some(host), _)) => seq![text::lowercased(host)],
        _ => Seq::empty(),
    });
}

/// An address that cannot be read gives neither a server nor a session, and the
/// reason stays. The address of a server does not end in a slash.
pub proof fn law_addresses(url: Seq<char>)
    ensures
        remote_url::parsed_url(url) matches Err(message) ==> remote_url::server_url(url) == Err::<
            Seq<char>,
            RemoteErrorView,
        >(RemoteErrorView::UrlParseError(message)) && remote_url::session_name(url) == Err::<
            Seq<char>,
            RemoteErrorView,
        >(RemoteErrorView::UrlParseError(message)),
        remote_url::parsed_url(url) is Ok ==> remote_url::session_name(url) is Ok,
        remote_url::server_url(url) matches Ok(base) ==> base.len() > 0 ==> base.last() != '/',
{
    if let Ok((_, path)) = remote_url::parsed_url(url) {
        if let Some(base) = remote_url::url_with_path(url, remote_url::server_path(path)) {
            text_laws::law_trailing_taken_off(base, '/');
        }
    }
}

/// Whether these are the parts of a path: none is empty or holds a slash.
pub open spec fn are_parts(parts: Seq<Seq<char>>) -> bool {
    forall|i: int|
        0 <= i < parts.len() ==> (#[trigger] parts[i]).len() > 0 && !parts[i].contains('/')
}

proof fn lemma_segments_of_parts(parts: Seq<Seq<char>>)
    requires
        are_parts(parts),
    ensures
        remote_url::segments(text_laws::rejoined(parts, '/')) == parts,
    decreases parts.len(),
{
    let none = Seq::<char>::empty();
    if parts.len() == 0 {
        remote_url::lemma_first_segment(none, none);
        assert(parts =~= Seq::empty());
    } else if parts.len() == 1 {
        remote_url::lemma_first_segment(parts[0], none);
        assert(parts =~= seq![parts[0]]);
    } else {
        let rest = parts.skip(1);
        assert(are_parts(rest)) by {
            assert forall|i: int| 0 <= i < rest.len() implies (#[trigger] rest[i]).len() > 0
                && !rest[i].contains('/') by {
                assert(rest[i] == parts[i + 1]);
            }
        }
        lemma_segments_of_parts(rest);
        remote_url::lemma_first_segment(parts[0], text_laws::rejoined(rest, '/'));
        assert(parts =~= seq![parts[0]] + rest);
    }
}

proof fn lemma_slashed_is_rejoined(parts: Seq<Seq<char>>)
    ensures
        remote_url::slashed(parts) == text_laws::rejoined(parts, '/'),
    decreases parts.len(),
{
    if parts.len() > 1 {
        let front = parts.drop_last();
        let rest = parts.skip(1);
        lemma_slashed_is_rejoined(front);
        lemma_slashed_is_rejoined(rest);
        if parts.len() == 2 {
            assert(front[0] == parts[0]);
            assert(rest[0] == parts.last());
        } else {
            lemma_slashed_is_rejoined(front.skip(1));
            assert(front.skip(1) =~= rest.drop_last());
            assert(front[0] == parts[0]);
            assert(rest.last() == parts.last());
            let inner = text_laws::rejoined(front.skip(1), '/');
            assert(remote_url::slashed(parts) =~= parts[0] + seq!['/'] + inner + seq!['/']
                + parts.last());
            assert(text_laws::rejoined(parts, '/') =~= parts[0] + seq!['/'] + (inner + seq!['/']
                + parts.last()));
        }
        assert(remote_url::slashed(parts) =~= text_laws::rejoined(parts, '/'));
    }
}

/// On a relay everything behind the slug is the name of the session, slashes
/// and all; the server is the same whatever stands there.
pub proof fn law_relay_session_of_parts(slug: Seq<char>, parts: Seq<Seq<char>>)
    requires
        slug.len() > 0,
        !slug.contains('/'),
        are_parts(parts),
    ensures
        ({
            let path = "/r/"@ + slug + seq!['/'] + text_laws::rejoined(parts, '/');
            &&& remote_url::session_path(path) == text_laws::rejoined(parts, '/')
            &&& remote_url::server_path(path) == "/r/"@ + slug
        }),
{
    let name = text_laws::rejoined(parts, '/');
    let long = slug + seq!['/'] + name;
    remote_url::lemma_first_segment(slug, name);
    remote_url::lemma_relay_segments(long);
    lemma_segments_of_parts(parts);
    lemma_slashed_is_rejoined(parts);
    assert("/r/"@ + slug + seq!['/'] + name =~= "/r/"@ + long);
    let all = remote_url::segments("/r/"@ + long);
    assert(all =~= seq!["r"@, slug] + parts);
    assert(all.skip(2) =~= parts);
}

} // verus!
