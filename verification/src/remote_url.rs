//! The address of a remote session: what of it is the server, what the session,
//! and whether its host is known to be a relay.

use crate::remote_error::{RemoteClientError, RemoteErrorView};
use crate::text;
use vstd::prelude::*;
use vstd::string::*;
use vstd::utf8;

verus! {

/// A host that is known to be a relay, together with the hosts under it.
pub const KNOWN_RELAY_HOST: &'static str = "zellij.dev";

/// How many bytes an address may have. What is made of it has to stay below
/// four gibibytes: each byte of a host becomes at most 64 (a label is mapped to
/// at most 18 characters for 3 bytes, and each of them is written in at most 10
/// letters), each byte of a path at most 3.
pub const URL_LIMIT: usize = 0x300_0000;

pub open spec fn url_fits(url: Seq<char>) -> bool {
    utf8::encode_utf8(url).len() <= URL_LIMIT
}

/// Whether an address is short enough to be taken apart; see [`URL_LIMIT`].
pub fn address_fits(url: &str) -> (r: bool)
    ensures
        r == url_fits(url@),
{
    url.as_bytes().len() <= URL_LIMIT
}

// ---------------------------------------------------------------- parsing

/// The parts of an address that matter here.
#[derive(Debug)]
pub struct UrlParts {
    pub host: Option<String>,
    pub path: String,
}

/// What `url::Url::parse` makes of a text: the host, where there is one, and the
/// path; or the text of the error.
pub uninterp spec fn parsed_url(url: Seq<char>) -> Result<
    (Option<Seq<char>>, Seq<char>),
    Seq<char>,
>;

/// `url::Url::parse`, read with `Url::host_str` and `Url::path`. It depends on
/// the text alone. A path is ASCII: a byte of the text becomes at most three
/// characters, and where there was no path it may become a slash.
#[verifier::external_body]
fn parse_url(url: &str) -> (r: Result<UrlParts, String>)
    ensures
        match parsed_url(url@) {
            Ok((host, path)) => {
                &&& r matches Ok(parts)
                &&& parts.path@ == path
                &&& match host {
                    Some(h) => parts.host matches Some(t) && t@ == h,
                    None => parts.host is None,
                }
            },
            Err(message) => r matches Err(e) && e@ == message,
        },
        r matches Ok(parts) ==> parts.path@.len() <= 3 * utf8::encode_utf8(url@).len() + 1,
{
    match url::Url::parse(url) {
        Ok(parsed) => Ok(
            UrlParts {
                host: parsed.host_str().map(|h| h.to_string()),
                path: parsed.path().to_string(),
            },
        ),
        Err(e) => Err(e.to_string()),
    }
}

/// The text of an address with another path, and without query and fragment.
pub uninterp spec fn url_with_path(url: Seq<char>, path: Seq<char>) -> Option<Seq<char>>;

/// `url::Url::set_path` on a parsed address whose query and fragment were
/// cleared with `Url::set_query` and `Url::set_fragment`, written out again.
/// There is nothing to return where `url::Url::parse` fails. It depends on the
/// two texts alone. `set_path` panics on addresses of more than four gibibytes,
/// which texts of these lengths cannot give; see [`URL_LIMIT`].
#[verifier::external_body]
fn replace_path(url: &str, path: &str) -> (r: Option<String>)
    requires
        url_fits(url@),
        path@.len() <= 4 * URL_LIMIT,
    ensures
        match url_with_path(url@, path@) {
            Some(t) => r matches Some(s) && s@ == t,
            None => r is None,
        },
        r is Some <==> parsed_url(url@) is Ok,
{
    let mut parsed = url::Url::parse(url).ok()?;
    parsed.set_query(None);
    parsed.set_fragment(None);
    parsed.set_path(path);
    Some(parsed.to_string())
}

// ---------------------------------------------------------------- paths

pub open spec fn not_empty() -> spec_fn(Seq<char>) -> bool {
    |s: Seq<char>| s.len() > 0
}

/// The parts of a path between the slashes, the empty ones left out.
pub open spec fn segments(path: Seq<char>) -> Seq<Seq<char>> {
    text::pieces(path, '/').filter(not_empty())
}

/// The slug in the path of an address of a relay.
pub open spec fn relay_slug(path: Seq<char>) -> Option<Seq<char>> {
    let s = segments(path);
    if s.len() >= 2 && s[0] == "r"@ {
        Some(s[1])
    } else {
        None
    }
}

/// The texts one behind the other, with slashes between them.
pub open spec fn slashed(parts: Seq<Seq<char>>) -> Seq<char>
    decreases parts.len(),
{
    if parts.len() == 0 {
        Seq::empty()
    } else if parts.len() == 1 {
        parts[0]
    } else {
        slashed(parts.drop_last()) + seq!['/'] + parts.last()
    }
}

/// The part of a path that belongs to the server: on a relay all endpoints of a
/// tunnel are under its slug.
pub open spec fn server_path(path: Seq<char>) -> Seq<char> {
    match relay_slug(path) {
        Some(slug) => "/r/"@ + slug,
        None => Seq::empty(),
    }
}

/// The part of a path that names the session.
pub open spec fn session_path(path: Seq<char>) -> Seq<char> {
    if relay_slug(path) is Some {
        slashed(segments(path).skip(2))
    } else if path.len() > 1 && path[0] == '/' {
        text::without_trailing(path.skip(1), '/')
    } else {
        Seq::empty()
    }
}

/// See [`segments`].
fn path_segments(path: &str) -> (r: Vec<String>)
    ensures
        text::text_views(r@) == segments(path@),
{
    let pieces = text::split(path, '/');
    let mut out: Vec<String> = Vec::new();
    let mut i: usize = 0;
    let ghost all = text::text_views(pieces@);
    proof {
        assert(all.take(0).filter(not_empty()) =~= Seq::<Seq<char>>::empty()) by {
            reveal(Seq::filter);
        }
        assert(text::text_views(out@) =~= Seq::<Seq<char>>::empty());
    }
    while i < pieces.len()
        invariant
            i <= pieces@.len(),
            all == text::text_views(pieces@),
            text::text_views(out@) == all.take(i as int).filter(not_empty()),
        decreases pieces@.len() - i,
    {
        let ghost before = text::text_views(out@);
        proof {
            assert(all.take(i + 1) =~= all.take(i as int).push(all[i as int]));
            assert(all.take(i + 1).drop_last() =~= all.take(i as int));
            reveal(Seq::filter);
            utf8_not_empty(pieces@[i as int]@);
        }
        if pieces[i].as_str().as_bytes().len() > 0 {
            out.push(pieces[i].clone());
            proof {
                assert(text::text_views(out@) =~= before.push(all[i as int]));
            }
        }
        i = i + 1;
    }
    proof {
        assert(all.take(i as int) =~= all);
    }
    out
}

/// A text has bytes exactly if it has characters.
proof fn utf8_not_empty(s: Seq<char>)
    ensures
        utf8::encode_utf8(s).len() > 0 <==> s.len() > 0,
{
    reveal_with_fuel(utf8::encode_utf8, 1);
}

/// The part of a path that belongs to the server; see [`server_path`].
pub fn preserved_path(path: &str) -> (r: String)
    ensures
        r@ == server_path(path@),
{
    let parts = path_segments(path);
    proof {
        reveal_strlit("");
    }
    if parts.len() >= 2 && text::same_text(parts[0].as_str(), "r") {
        proof {
            assert(segments(path@)[0] == parts@[0]@);
            assert(segments(path@)[1] == parts@[1]@);
        }
        text::joined("/r/", parts[1].as_str())
    } else {
        proof {
            assert(parts@.len() >= 2 ==> segments(path@)[0] == parts@[0]@);
            assert(""@ =~= Seq::<char>::empty());
        }
        "".to_string()
    }
}

/// The part of a path that names the session; see [`session_path`].
pub fn session_of_path(path: &str) -> (r: String)
    ensures
        r@ == session_path(path@),
{
    let parts = path_segments(path);
    let ghost all = segments(path@);
    if parts.len() >= 2 && text::same_text(parts[0].as_str(), "r") {
        let mut out = String::new();
        let mut i: usize = 2;
        proof {
            assert(all[0] == parts@[0]@);
            assert(all.subrange(2, 2) =~= Seq::<Seq<char>>::empty());
            assert(out@ =~= Seq::<char>::empty());
        }
        while i < parts.len()
            invariant
                2 <= i <= parts@.len(),
                all == text::text_views(parts@),
                out@ == slashed(all.subrange(2, i as int)),
            decreases parts@.len() - i,
        {
            let ghost before = all.subrange(2, i as int);
            let ghost after = all.subrange(2, i + 1);
            proof {
                assert(after =~= before.push(parts@[i as int]@));
                assert(after.drop_last() =~= before);
            }
            if i > 2 {
                out.push('/');
            }
            let ghost so_far = out@;
            out = text::joined(out.as_str(), parts[i].as_str());
            proof {
                if i > 2 {
                    assert(out@ =~= slashed(before) + seq!['/'] + parts@[i as int]@);
                } else {
                    assert(out@ =~= after[0]);
                }
            }
            i = i + 1;
        }
        proof {
            assert(all.subrange(2, i as int) =~= all.skip(2));
        }
        return out;
    }
    proof {
        assert(parts@.len() >= 2 ==> all[0] == parts@[0]@);
        assert(relay_slug(path@) is None);
    }
    let chars = text::chars_of(path);
    if chars.len() > 1 && chars[0] == '/' {
        let rest = text::text_of(vstd::slice::slice_subrange(chars.as_slice(), 1, chars.len()));
        proof {
            assert(rest@ =~= path@.skip(1));
        }
        text::trim_trailing(rest.as_str(), '/')
    } else {
        String::new()
    }
}

/// No piece of a text is longer than the text.
proof fn lemma_piece_len(s: Seq<char>, separator: char, i: int)
    requires
        0 <= i < text::pieces(s, separator).len(),
    ensures
        text::pieces(s, separator)[i].len() <= s.len(),
    decreases s.len(),
{
    match text::find_char(s, separator) {
        Some(at) if at < s.len() => {
            if i > 0 {
                lemma_piece_len(s.skip(at as int + 1), separator, i - 1);
            }
        },
        _ => {},
    }
}

/// The part of a path that belongs to the server is hardly longer than the path.
proof fn lemma_server_path_len(path: Seq<char>)
    ensures
        server_path(path).len() <= path.len() + 3,
{
    reveal_strlit("/r/");
    if let Some(slug) = relay_slug(path) {
        let all = text::pieces(path, '/');
        assert(segments(path).contains(slug));
        all.lemma_filter_contains_rev(not_empty(), slug);
        let i = choose|i: int| 0 <= i < all.len() && all[i] == slug;
        lemma_piece_len(path, '/', i);
    }
}

// ---------------------------------------------------------------- addresses

/// The address of the server behind the address of a session.
pub open spec fn server_url(url: Seq<char>) -> Result<Seq<char>, RemoteErrorView> {
    match parsed_url(url) {
        Ok((_, path)) => match url_with_path(url, server_path(path)) {
            Some(base) => Ok(text::without_trailing(base, '/')),
            None => Err(RemoteErrorView::UrlParseError(Seq::empty())),
        },
        Err(message) => Err(RemoteErrorView::UrlParseError(message)),
    }
}

/// The name of the session in its address.
pub open spec fn session_name(url: Seq<char>) -> Result<Seq<char>, RemoteErrorView> {
    match parsed_url(url) {
        Ok((_, path)) => Ok(session_path(path)),
        Err(message) => Err(RemoteErrorView::UrlParseError(message)),
    }
}

/// Whether a function that reads an address returned what it should.
pub open spec fn url_result(
    r: Result<String, RemoteClientError>,
    expected: Result<Seq<char>, RemoteErrorView>,
) -> bool {
    match expected {
        Ok(t) => r matches Ok(s) && s@ == t,
        Err(e) => r matches Err(error) && error@ == e,
    }
}

/// The address that the endpoints of the server are under: without query and
/// fragment, and without the session. It is there exactly if the address can be
/// read.
pub fn extract_server_url(full_url: &str) -> (r: Result<String, RemoteClientError>)
    requires
        url_fits(full_url@),
    ensures
        url_result(r, server_url(full_url@)),
        r is Ok <==> parsed_url(full_url@) is Ok,
{
    let parts = match parse_url(full_url) {
        Ok(parts) => parts,
        Err(message) => {
            return Err(RemoteClientError::UrlParseError(message));
        },
    };
    let path = preserved_path(parts.path.as_str());
    proof {
        lemma_server_path_len(parts.path@);
    }
    match replace_path(full_url, path.as_str()) {
        Some(base) => Ok(text::trim_trailing(base.as_str(), '/')),
        None => {
            let message = String::new();
            proof {
                assert(message@ =~= Seq::<char>::empty());
            }
            Err(RemoteClientError::UrlParseError(message))
        },
    }
}

/// The name of the session that an address speaks of; empty where it speaks of
/// none.
pub fn extract_session_name(full_url: &str) -> (r: Result<String, RemoteClientError>)
    ensures
        url_result(r, session_name(full_url@)),
{
    match parse_url(full_url) {
        Ok(parts) => Ok(session_of_path(parts.path.as_str())),
        Err(message) => Err(RemoteClientError::UrlParseError(message)),
    }
}

// ---------------------------------------------------------------- hosts

/// Whether a host is `candidate` or a host under it. Nothing is under an empty
/// candidate.
pub open spec fn is_under(host: Seq<char>, candidate: Seq<char>) -> bool {
    &&& candidate.len() > 0
    &&& host == candidate || text::ends_with(host, seq!['.'] + candidate)
}

/// See [`is_under`].
pub fn host_matches(host: &str, candidate: &str) -> (r: bool)
    ensures
        r == is_under(host@, candidate@),
{
    proof {
        utf8_not_empty(candidate@);
        reveal_strlit(".");
        assert("."@ =~= seq!['.']);
    }
    if candidate.as_bytes().len() == 0 {
        return false;
    }
    if text::same_text(host, candidate) {
        return true;
    }
    let suffix = text::joined(".", candidate);
    text::has_suffix(host, suffix.as_str())
}

/// Whether a host is known to be a relay: the one that everybody knows, or one
/// of `extra`. Letters count the same in both cases.
pub open spec fn is_known_relay(host: Seq<char>, extra: Seq<Seq<char>>) -> bool {
    let lower = text::lowercased(host);
    ||| is_under(lower, KNOWN_RELAY_HOST@)
    ||| exists|i: int|
        0 <= i < extra.len() && is_under(lower, text::lowercased(text::trimmed(#[trigger] extra[i])))
}

/// See [`is_known_relay`].
pub fn host_is_known_relay(host: &str, extra_known_hosts: &[String]) -> (r: bool)
    ensures
        r == is_known_relay(host@, text::text_views(extra_known_hosts@)),
{
    let lower = text::lowercase(host);
    let ghost extra = text::text_views(extra_known_hosts@);
    if host_matches(lower.as_str(), KNOWN_RELAY_HOST) {
        return true;
    }
    let mut i: usize = 0;
    while i < extra_known_hosts.len()
        invariant
            i <= extra_known_hosts@.len(),
            extra == text::text_views(extra_known_hosts@),
            lower@ == text::lowercased(host@),
            forall|j: int|
                0 <= j < i ==> !is_under(
                    lower@,
                    text::lowercased(text::trimmed(#[trigger] extra[j])),
                ),
        decreases extra_known_hosts@.len() - i,
    {
        let candidate = text::lowercase(text::trim(extra_known_hosts[i].as_str()).as_str());
        proof {
            assert(extra[i as int] == extra_known_hosts@[i as int]@);
        }
        if host_matches(lower.as_str(), candidate.as_str()) {
            return true;
        }
        i = i + 1;
    }
    false
}

/// The host of an address, in lower case.
pub open spec fn lower_host(url: Seq<char>) -> Option<Seq<char>> {
    match parsed_url(url) {
        Ok((Some(host), _)) => Some(text::lowercased(host)),
        _ => None,
    }
}

/// The hosts of those of the addresses that have one, in lower case.
pub open spec fn lower_hosts(urls: Seq<Seq<char>>) -> Seq<Seq<char>>
    decreases urls.len(),
{
    if urls.len() == 0 {
        Seq::empty()
    } else {
        let before = lower_hosts(urls.drop_last());
        match lower_host(urls.last()) {
            Some(host) => before.push(host),
            None => before,
        }
    }
}

/// The hosts of the addresses; what cannot be read is left out.
pub fn hosts_from_urls(urls: &[String]) -> (r: Vec<String>)
    ensures
        text::text_views(r@) == lower_hosts(text::text_views(urls@)),
{
    let mut out: Vec<String> = Vec::new();
    let mut i: usize = 0;
    let ghost all = text::text_views(urls@);
    proof {
        assert(text::text_views(out@) =~= lower_hosts(all.take(0)));
    }
    while i < urls.len()
        invariant
            i <= urls@.len(),
            all == text::text_views(urls@),
            text::text_views(out@) == lower_hosts(all.take(i as int)),
        decreases urls@.len() - i,
    {
        let ghost before = text::text_views(out@);
        proof {
            assert(all.take(i + 1).drop_last() =~= all.take(i as int));
            assert(all.take(i + 1).last() == urls@[i as int]@);
        }
        match parse_url(urls[i].as_str()) {
            Ok(parts) => {
                match parts.host {
                    Some(host) => {
                        let lower = text::lowercase(host.as_str());
                        out.push(lower);
                        proof {
                            assert(text::text_views(out@) =~= before.push(lower@));
                        }
                    },
                    None => {},
                }
            },
            Err(_) => {},
        }
        i = i + 1;
    }
    proof {
        assert(all.take(i as int) =~= all);
    }
    out
}

/// What a page says that expects encryption from end to end.
pub const EXPECTED_E2E_MARK: &'static str = "id=\"zellij-expected-e2e\" value=\"true\"";

/// Whether the host of an address is known to be a relay.
pub open spec fn leads_to_relay(url: Seq<char>, extra: Seq<Seq<char>>) -> bool {
    parsed_url(url) matches Ok((Some(host), _)) && is_known_relay(host, extra)
}

/// Whether encryption can be expected without asking the server.
pub fn known_relay_url(url: &str, extra_known_hosts: &[String]) -> (r: bool)
    ensures
        r == leads_to_relay(url@, text::text_views(extra_known_hosts@)),
{
    match parse_url(url) {
        Ok(parts) => match parts.host {
            Some(host) => host_is_known_relay(host.as_str(), extra_known_hosts),
            None => false,
        },
        Err(_) => false,
    }
}

/// Whether encryption from end to end is to be expected at an address: on a host
/// that is known to be a relay always, whatever its page says; elsewhere if the
/// page says so. `page` is what was read at the address of the server, where it
/// could be read.
pub fn probe_expected_e2e(url: &str, extra_known_hosts: &[String], page: Option<String>) -> (r:
    bool)
    ensures
        r == (leads_to_relay(url@, text::text_views(extra_known_hosts@)) || (page matches Some(t)
            && text::contains_text(t@, EXPECTED_E2E_MARK@))),
{
    if known_relay_url(url, extra_known_hosts) {
        return true;
    }
    match page {
        Some(t) => text::has_text(t.as_str(), EXPECTED_E2E_MARK),
        None => false,
    }
}

// ---------------------------------------------------------------- laws

/// A text without the separator, put before the separator and a rest, is the
/// first piece of the whole.
proof fn lemma_first_piece(first: Seq<char>, separator: char, rest: Seq<char>)
    requires
        !first.contains(separator),
    ensures
        text::pieces(first + seq![separator] + rest, separator) == seq![first] + text::pieces(
            rest,
            separator,
        ),
        text::pieces(first, separator) == seq![first],
{
    let s = first + seq![separator] + rest;
    text::lemma_find_char(s, separator);
    text::lemma_find_char(first, separator);
    assert(s[first.len() as int] == separator);
    match text::find_char(s, separator) {
        Some(at) => {
            if at < first.len() {
                assert(first[at as int] == separator);
                assert(first.contains(separator));
            }
            assert(s.take(first.len() as int) =~= first);
            assert(s.skip(first.len() as int + 1) =~= rest);
        },
        None => {},
    }
}

/// Segments are what is between the slashes: a path that begins with a slash and
/// a part has that part as its first segment.
pub proof fn lemma_first_segment(first: Seq<char>, rest: Seq<char>)
    requires
        !first.contains('/'),
    ensures
        segments(first + seq!['/'] + rest) == if first.len() > 0 {
            seq![first] + segments(rest)
        } else {
            segments(rest)
        },
        segments(first) == if first.len() > 0 {
            seq![first]
        } else {
            Seq::empty()
        },
{
    lemma_first_piece(first, '/', rest);
    let one = seq![first];
    Seq::filter_distributes_over_add(one, text::pieces(rest, '/'), not_empty());
    assert(one.filter(not_empty()) =~= if first.len() > 0 {
        one
    } else {
        Seq::empty()
    }) by {
        reveal_with_fuel(Seq::filter, 2);
        assert(one.drop_last() =~= Seq::<Seq<char>>::empty());
    }
    assert(Seq::<Seq<char>>::empty() + segments(rest) =~= segments(rest));
}

/// On a relay the server is the same whether or not the address names a session:
/// the slug stays, and the session is what stands behind it.
pub proof fn law_relay_path(slug: Seq<char>, session: Seq<char>)
    requires
        slug.len() > 0,
        !slug.contains('/'),
        !session.contains('/'),
    ensures
        server_path("/r/"@ + slug) == "/r/"@ + slug,
        server_path("/r/"@ + slug + seq!['/'] + session) == "/r/"@ + slug,
        session_path("/r/"@ + slug) == Seq::<char>::empty(),
        session_path("/r/"@ + slug + seq!['/'] + session) == session,
{
    let none = Seq::<char>::empty();
    let long = slug + seq!['/'] + session;
    lemma_first_segment(slug, session);
    lemma_first_segment(session, none);
    lemma_relay_segments(slug);
    lemma_relay_segments(long);
    assert("/r/"@ + slug + seq!['/'] + session =~= "/r/"@ + long);
    let bare = segments("/r/"@ + slug);
    let all = segments("/r/"@ + long);
    assert(bare =~= seq!["r"@, slug]);
    assert(bare.skip(2) =~= Seq::<Seq<char>>::empty());
    assert(all.len() >= 2 && all[0] == "r"@ && all[1] == slug);
    assert(all.skip(2) =~= segments(session));
    if session.len() == 0 {
        assert(session =~= none);
    }
}

/// The segments of a path of a relay.
pub proof fn lemma_relay_segments(rest: Seq<char>)
    ensures
        segments("/r/"@ + rest) == seq!["r"@] + segments(rest),
{
    reveal_strlit("/r/");
    reveal_strlit("r");
    let none = Seq::<char>::empty();
    let r = "r"@;
    assert(r =~= seq!['r']);
    lemma_first_segment(r, rest);
    let behind = r + seq!['/'] + rest;
    lemma_first_segment(none, behind);
    assert("/r/"@ + rest =~= none + seq!['/'] + behind);
}

/// Where the first segment of a path is none of a relay, the path is all session
/// and the server is at the root.
pub proof fn law_local_path(name: Seq<char>, rest: Seq<char>)
    requires
        name.len() > 0,
        !name.contains('/'),
        name != "r"@,
    ensures
        server_path(seq!['/'] + name + seq!['/'] + rest) == Seq::<char>::empty(),
        session_path(seq!['/'] + name + seq!['/'] + rest) == text::without_trailing(
            name + seq!['/'] + rest,
            '/',
        ),
{
    let none = Seq::<char>::empty();
    let path = seq!['/'] + name + seq!['/'] + rest;
    let behind = name + seq!['/'] + rest;
    lemma_first_segment(name, rest);
    lemma_first_segment(none, behind);
    assert(path =~= none + seq!['/'] + behind);
    assert(segments(path)[0] == name);
    assert(path.skip(1) =~= behind);
}

/// Every host under one that is known to be a relay is known to be one.
pub proof fn law_subdomain_of_relay(host: Seq<char>, label: Seq<char>, extra: Seq<Seq<char>>)
    requires
        text::lowercased(host) == label + seq!['.'] + KNOWN_RELAY_HOST@,
    ensures
        is_known_relay(host, extra),
{
    let suffix = seq!['.'] + KNOWN_RELAY_HOST@;
    let lower = text::lowercased(host);
    reveal_strlit("zellij.dev");
    assert(lower.subrange(lower.len() - suffix.len(), lower.len() as int) =~= suffix);
}

} // verus!
