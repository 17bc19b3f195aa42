//! The pages and answers of the web servers, the local one's and the relay's.

use crate::cookies;
use crate::cookies::SitePolicy;
use crate::crypto;
use crate::crypto::KEY_LEN;
use crate::ids;
use crate::text;
use crate::viewer;
use crate::viewer::LoginResponse;
use crate::web_client_assets;
use crate::web_client_assets::AssetResponse;
use include_dir::Dir;
use vstd::prelude::*;
use vstd::string::*;

verus! {

/// How a character is written in a page.
pub open spec fn escaped_char(c: char) -> Seq<char> {
    if c == '&' {
        "&amp;"@
    } else if c == '<' {
        "&lt;"@
    } else if c == '>' {
        "&gt;"@
    } else if c == '"' {
        "&quot;"@
    } else if c == '\'' {
        "&#x27;"@
    } else {
        seq![c]
    }
}

/// How a text is written in a page.
pub open spec fn escaped(s: Seq<char>) -> Seq<char>
    decreases s.len(),
{
    if s.len() == 0 {
        Seq::empty()
    } else {
        escaped(s.drop_last()) + escaped_char(s.last())
    }
}

pub fn html_escape(s: &str) -> (r: String)
    ensures
        r@ == escaped(s@),
{
    let chars = text::chars_of(s);
    let mut r = String::new();
    let mut i: usize = 0;
    proof {
        assert(chars@.take(0) =~= Seq::<char>::empty());
    }
    while i < chars.len()
        invariant
            i <= chars@.len(),
            r@ == escaped(chars@.take(i as int)),
        decreases chars@.len() - i,
    {
        let c = chars[i];
        let ghost before = r@;
        proof {
            assert(chars@.take(i + 1).drop_last() =~= chars@.take(i as int));
            assert(chars@.take(i + 1).last() == c);
        }
        if c == '&' {
            r.append("&amp;");
        } else if c == '<' {
            r.append("&lt;");
        } else if c == '>' {
            r.append("&gt;");
        } else if c == '"' {
            r.append("&quot;");
        } else if c == '\'' {
            r.append("&#x27;");
        } else {
            r.push(c);
        }
        proof {
            assert(r@ =~= before + escaped_char(c));
        }
        i = i + 1;
    }
    proof {
        assert(chars@.take(i as int) =~= chars@);
    }
    r
}

/// The characters that mean something in a page do not come through as
/// themselves: what is escaped holds none of them but the `&` of its
/// references.
pub proof fn law_escaped_has_no_markup(s: Seq<char>)
    ensures
        forall|i: int|
            0 <= i < escaped(s).len() ==> {
                let c = #[trigger] escaped(s)[i];
                c != '<' && c != '>' && c != '"' && c != '\''
            },
    decreases s.len(),
{
    if s.len() > 0 {
        law_escaped_has_no_markup(s.drop_last());
        reveal_strlit("&amp;");
        reveal_strlit("&lt;");
        reveal_strlit("&gt;");
        reveal_strlit("&quot;");
        reveal_strlit("&#x27;");
        let init = escaped(s.drop_last());
        let tail = escaped_char(s.last());
        assert forall|i: int| 0 <= i < escaped(s).len() implies {
            let c = #[trigger] escaped(s)[i];
            c != '<' && c != '>' && c != '"' && c != '\''
        } by {
            if i < init.len() {
                assert(escaped(s)[i] == init[i]);
            } else {
                assert(escaped(s)[i] == tail[i - init.len()]);
            }
        }
    }
}

pub open spec fn true_or_false(b: bool) -> Seq<char> {
    if b {
        "true"@
    } else {
        "false"@
    }
}

fn flag_text(b: bool) -> (s: &'static str)
    ensures
        s@ == true_or_false(b),
{
    if b {
        "true"
    } else {
        "false"
    }
}

/// The start page of the local web server.
pub open spec fn local_page(
    template: Seq<char>,
    is_authenticated: bool,
    encrypt_web_sharing: bool,
    base_url: Seq<char>,
) -> Seq<char> {
    let a = text::replaced(template, "IS_AUTHENTICATED"@, true_or_false(is_authenticated));
    let b = text::replaced(a, "EXPECTED_E2E"@, true_or_false(encrypt_web_sharing));
    let c = text::replaced(b, "IS_READ_ONLY"@, "false"@);
    let d = text::replaced(c, "SESSION_ROWS"@, "0"@);
    let e = text::replaced(d, "SESSION_COLS"@, "0"@);
    let f = text::replaced(e, "AUTH_MODE"@, "local"@);
    text::replaced(f, "BASE_URL"@, escaped(base_url))
}

/// The start page of the local web server. Whoever has a session cookie counts
/// as authenticated. `base_url` is where the pages stand, if not at the root.
pub fn serve_html(
    template: &str,
    cookie_headers: &[String],
    encrypt_web_sharing: bool,
    base_url: Option<String>,
) -> (page: String)
    ensures
        page@ == local_page(
            template@,
            cookies::cookie_in(text::text_views(cookie_headers@), "session_token"@) is Some,
            encrypt_web_sharing,
            match base_url {
                Some(url) => url@,
                None => "/"@,
            },
        ),
{
    let is_authenticated = cookies::find_cookie(cookie_headers, "session_token").is_some();
    let base_url = match base_url {
        Some(url) => url,
        None => "/".to_string(),
    };
    let escaped_url = html_escape(base_url.as_str());
    proof {
        reveal_strlit("IS_AUTHENTICATED");
        reveal_strlit("EXPECTED_E2E");
        reveal_strlit("IS_READ_ONLY");
        reveal_strlit("SESSION_ROWS");
        reveal_strlit("SESSION_COLS");
        reveal_strlit("AUTH_MODE");
        reveal_strlit("BASE_URL");
    }
    let a = text::replace_all(template, "IS_AUTHENTICATED", flag_text(is_authenticated));
    let b = text::replace_all(a.as_str(), "EXPECTED_E2E", flag_text(encrypt_web_sharing));
    let c = text::replace_all(b.as_str(), "IS_READ_ONLY", "false");
    let d = text::replace_all(c.as_str(), "SESSION_ROWS", "0");
    let e = text::replace_all(d.as_str(), "SESSION_COLS", "0");
    let f = text::replace_all(e.as_str(), "AUTH_MODE", "local");
    text::replace_all(f.as_str(), "BASE_URL", escaped_url.as_str())
}

/// The start page of a tunnel at the relay.
pub open spec fn relay_page(template: Seq<char>, slug: Seq<char>) -> Seq<char> {
    let a = text::replaced(template, "IS_AUTHENTICATED"@, "false"@);
    let b = text::replaced(a, "EXPECTED_E2E"@, "true"@);
    text::replaced(b, "BASE_URL"@, viewer::tunnel_path(slug))
}

/// The start page of a tunnel at the relay. It is made without a look at the
/// tunnels, so it does not tell whether the slug is open.
pub fn serve_relay_html(template: &str, slug: &str) -> (page: String)
    ensures
        page@ == relay_page(template@, slug@),
{
    proof {
        reveal_strlit("IS_AUTHENTICATED");
        reveal_strlit("EXPECTED_E2E");
        reveal_strlit("BASE_URL");
    }
    let a = text::replace_all(template, "IS_AUTHENTICATED", "false");
    let b = text::replace_all(a.as_str(), "EXPECTED_E2E", "true");
    text::replace_all(b.as_str(), "BASE_URL", viewer::tunnel_path_text(slug).as_str())
}

/// How long a remembered login lasts, in seconds: four weeks.
pub const REMEMBER_ME_SECONDS: u32 = 2_419_200;

/// The answer to a login at the local web server.
#[derive(Debug)]
pub enum LoginReply {
    Accepted { response: LoginResponse, cookie: String },
    /// Status 401.
    Rejected { response: LoginResponse },
}

/// The cookie of a login at the local web server.
pub open spec fn login_cookie(session_token: Seq<char>, is_https: bool, remember: bool) -> Seq<char> {
    cookies::cookie_text(
        "session_token"@,
        session_token,
        true,
        SitePolicy::Strict,
        is_https,
        "/"@,
        if remember {
            Some(REMEMBER_ME_SECONDS)
        } else {
            None
        },
    )
}

/// What [`login_handler`] returns.
pub open spec fn login_answered(
    session_token: Option<String>,
    remember_me: Option<bool>,
    is_https: bool,
    reply: LoginReply,
) -> bool {
    match session_token {
        Some(token) => reply matches LoginReply::Accepted { response, cookie } && {
            &&& response.success
            &&& response.message@ == "Login successful"@
            &&& cookie@ == login_cookie(token@, is_https, remember_me == Some(true))
        },
        None => reply matches LoginReply::Rejected { response } && {
            &&& !response.success
            &&& response.message@ == "Invalid authentication token"@
        },
    }
}

/// Answers a login. `session_token` is the token that was made for it, or
/// `None` where the login was not good.
pub fn login_handler(session_token: Option<String>, remember_me: Option<bool>, is_https: bool) -> (reply:
    LoginReply)
    ensures
        login_answered(session_token, remember_me, is_https, reply),
{
    match session_token {
        Some(token) => {
            let remember = match remember_me {
                Some(remember) => remember,
                None => false,
            };
            let max_age: Option<u32> = if remember {
                Some(REMEMBER_ME_SECONDS)
            } else {
                None
            };
            let cookie = cookies::render_cookie(
                "session_token",
                token.as_str(),
                true,
                SitePolicy::Strict,
                is_https,
                "/",
                max_age,
            );
            LoginReply::Accepted {
                response: LoginResponse { success: true, message: "Login successful".to_string() },
                cookie,
            }
        },
        None => LoginReply::Rejected {
            response: LoginResponse {
                success: false,
                message: "Invalid authentication token".to_string(),
            },
        },
    }
}

/// What a new client of the local web server is told.
#[derive(Debug)]
pub struct CreateClientIdResponse {
    pub web_client_id: String,
    pub is_read_only: bool,
    pub e2e_encrypted: bool,
    pub tunnel_id: String,
    pub session_rows: u32,
    pub session_cols: u32,
}

/// A new client of the local web server.
#[derive(Debug)]
pub struct NewClient {
    pub session_token_hash: String,
    /// The key of the client's terminal data, where that is encrypted.
    pub e2e_key: Option<[u8; KEY_LEN]>,
    pub response: CreateClientIdResponse,
}

/// Makes a new client, under an id drawn at random. See
/// [`create_new_client_with`].
pub fn create_new_client(
    is_read_only: Option<bool>,
    session_token_hash: Option<String>,
    auth_token_hash: Option<String>,
    os_api: Result<(), String>,
    encrypt_web_sharing: bool,
    local_tunnel_id: &str,
) -> (r: Result<NewClient, String>)
    ensures
        exists|id: u128| #[trigger]
            client_created(
                is_read_only,
                session_token_hash,
                auth_token_hash,
                os_api,
                encrypt_web_sharing,
                local_tunnel_id@,
                ids::hyphenated(id),
                r,
            ),
{
    let id = ids::random_id();
    create_new_client_with(
        is_read_only,
        session_token_hash,
        auth_token_hash,
        os_api,
        encrypt_web_sharing,
        local_tunnel_id,
        ids::id_text(id),
    )
}

/// What [`create_new_client_with`] returns.
pub open spec fn client_created(
    is_read_only: Option<bool>,
    session_token_hash: Option<String>,
    auth_token_hash: Option<String>,
    os_api: Result<(), String>,
    encrypt_web_sharing: bool,
    local_tunnel_id: Seq<char>,
    web_client_id: Seq<char>,
    r: Result<NewClient, String>,
) -> bool {
    match (session_token_hash, os_api) {
        (None, _) => r matches Err(e) && e@ == "Missing session info"@,
        (Some(_), Err(error)) => r == Err::<NewClient, String>(error),
        (Some(session), Ok(_)) => r matches Ok(client) && {
            &&& client.session_token_hash == session
            &&& match (encrypt_web_sharing, auth_token_hash) {
                (true, Some(hash)) => client.e2e_key matches Some(key) && key@
                    == crypto::derived_key(hash@, local_tunnel_id),
                _ => client.e2e_key is None,
            }
            &&& client.response.web_client_id@ == web_client_id
            &&& client.response.is_read_only == (is_read_only != Some(false))
            &&& client.response.e2e_encrypted == (encrypt_web_sharing && auth_token_hash is Some)
            &&& client.response.tunnel_id@ == local_tunnel_id
            &&& client.response.session_rows == 0
            &&& client.response.session_cols == 0
        },
    }
}

/// Makes a new client. The login has to name its session; where it does not
/// say whether the client may write, the client may not. `os_api` says whether
/// the client could be connected to the session. Terminal data is encrypted
/// where that is asked for and the login's token is known.
pub fn create_new_client_with(
    is_read_only: Option<bool>,
    session_token_hash: Option<String>,
    auth_token_hash: Option<String>,
    os_api: Result<(), String>,
    encrypt_web_sharing: bool,
    local_tunnel_id: &str,
    web_client_id: String,
) -> (r: Result<NewClient, String>)
    ensures
        client_created(
            is_read_only,
            session_token_hash,
            auth_token_hash,
            os_api,
            encrypt_web_sharing,
            local_tunnel_id@,
            web_client_id@,
            r,
        ),
{
    let is_read_only = match is_read_only {
        Some(read_only) => read_only,
        None => true,
    };
    let session_token_hash = match session_token_hash {
        Some(hash) => hash,
        None => {
            return Err("Missing session info".to_string());
        },
    };
    match os_api {
        Ok(_) => {},
        Err(error) => {
            return Err(error);
        },
    }
    let e2e_key: Option<[u8; KEY_LEN]> = if encrypt_web_sharing {
        match &auth_token_hash {
            Some(hash) => Some(crypto::derive_key(hash.as_str(), local_tunnel_id)),
            None => None,
        }
    } else {
        None
    };
    Ok(
        NewClient {
            session_token_hash,
            e2e_key,
            response: CreateClientIdResponse {
                web_client_id,
                is_read_only,
                e2e_encrypted: encrypt_web_sharing && auth_token_hash.is_some(),
                tunnel_id: local_tunnel_id.to_string(),
                session_rows: 0,
                session_cols: 0,
            },
        },
    )
}

/// A file of the web client, or a page that says that there is none.
#[derive(Debug)]
pub enum StaticAsset {
    Found(AssetResponse),
    /// Content type `text/html`, body `Not Found`.
    Missing,
}

/// A file of the web client.
pub fn get_static_asset(dir: &Dir<'static>, clip_wasm: Option<&'static [u8]>, path: &str) -> (asset:
    StaticAsset)
    ensures
        ({
            let trimmed = web_client_assets::without_leading_slashes(path@);
            if trimmed == "clip.wasm"@ && clip_wasm is Some {
                asset matches StaticAsset::Found(response) && response.content_type@
                    == "application/wasm"@ && response.contents@ == clip_wasm->0@
            } else if web_client_assets::bundled_files(*dir).contains_key(trimmed) {
                asset matches StaticAsset::Found(response)
                    && web_client_assets::is_file_response(*dir, trimmed, Some(response))
            } else {
                asset is Missing
            }
        }),
{
    match web_client_assets::lookup(dir, clip_wasm, path) {
        Some(response) => StaticAsset::Found(response),
        None => StaticAsset::Missing,
    }
}

} // verus!
