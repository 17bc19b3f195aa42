//! What holds of the pages, cookies and files of the web servers, whatever they
//! are asked for.

use crate::crypto;
use crate::http_handlers;
use crate::http_handlers::{LoginReply, NewClient};
use crate::text;
use crate::text_laws;
use crate::versioned_assets;
use crate::versioned_assets::{ServedAsset, RELAY_VERSION};
use crate::web_client_assets;
use crate::web_client_assets::AssetResponse;
use include_dir::Dir;
use vstd::prelude::*;

verus! {

// ---------------------------------------------------------------- escaping

/// Whether a character means nothing in a page.
pub open spec fn is_plain_text(c: char) -> bool {
    c != '&' && c != '<' && c != '>' && c != '"' && c != '\''
}

/// Texts are escaped piece by piece.
pub proof fn law_escaped_adds_up(a: Seq<char>, b: Seq<char>)
    ensures
        http_handlers::escaped(a + b) == http_handlers::escaped(a) + http_handlers::escaped(b),
    decreases b.len(),
{
    if b.len() == 0 {
        assert(a + b =~= a);
        assert(http_handlers::escaped(a) + Seq::<char>::empty() =~= http_handlers::escaped(a));
    } else {
        assert((a + b).drop_last() =~= a + b.drop_last());
        law_escaped_adds_up(a, b.drop_last());
        assert(http_handlers::escaped(a + b) =~= http_handlers::escaped(a)
            + http_handlers::escaped(b));
    }
}

/// A text of characters that mean nothing in a page stays as it is.
pub proof fn law_plain_text_stays(s: Seq<char>)
    requires
        forall|i: int| 0 <= i < s.len() ==> is_plain_text(#[trigger] s[i]),
    ensures
        http_handlers::escaped(s) == s,
    decreases s.len(),
{
    if s.len() > 0 {
        law_plain_text_stays(s.drop_last());
        assert(s =~= s.drop_last() + seq![s.last()]);
    } else {
        assert(http_handlers::escaped(s) =~= s);
    }
}

/// A character that means something in a page becomes a reference: it begins
/// with `&`, ends with `;` and is plain text in between.
pub proof fn law_markup_becomes_reference(c: char)
    requires
        !is_plain_text(c),
    ensures
        ({
            let r = http_handlers::escaped(seq![c]);
            &&& r.len() > 3
            &&& r[0] == '&'
            &&& r.last() == ';'
            &&& forall|i: int|
                0 < i < r.len() - 1 ==> is_plain_text(#[trigger] r[i]) && r[i] != ';'
        }),
{
    lemma_escaped_one(c);
    reveal_strlit("&amp;");
    reveal_strlit("&lt;");
    reveal_strlit("&gt;");
    reveal_strlit("&quot;");
    reveal_strlit("&#x27;");
}

proof fn lemma_escaped_one(c: char)
    ensures
        http_handlers::escaped(seq![c]) == http_handlers::escaped_char(c),
{
    reveal_with_fuel(http_handlers::escaped, 2);
    assert(seq![c].drop_last() =~= Seq::<char>::empty());
    assert(http_handlers::escaped(seq![c]) =~= http_handlers::escaped_char(c));
}

/// Nothing is lost: no two texts are written alike.
pub proof fn law_escaped_loses_nothing(a: Seq<char>, b: Seq<char>)
    requires
        http_handlers::escaped(a) == http_handlers::escaped(b),
    ensures
        a == b,
    decreases a.len(),
{
    reveal_strlit("&amp;");
    reveal_strlit("&lt;");
    reveal_strlit("&gt;");
    reveal_strlit("&quot;");
    reveal_strlit("&#x27;");
    if a.len() > 0 {
        lemma_escaped_one(a[0]);
        law_escaped_adds_up(seq![a[0]], a.skip(1));
        assert(a =~= seq![a[0]] + a.skip(1));
    }
    if b.len() > 0 {
        lemma_escaped_one(b[0]);
        law_escaped_adds_up(seq![b[0]], b.skip(1));
        assert(b =~= seq![b[0]] + b.skip(1));
    }
    let whole = http_handlers::escaped(a);
    if a.len() > 0 && b.len() > 0 {
        let x = http_handlers::escaped_char(a[0]);
        let y = http_handlers::escaped_char(b[0]);
        let rest_a = http_handlers::escaped(a.skip(1));
        let rest_b = http_handlers::escaped(b.skip(1));
        assert(whole == x + rest_a && whole == y + rest_b);
        assert(whole[0] == x[0] && whole[0] == y[0]);
        if x.len() > 1 {
            assert(whole[1] == x[1]);
        }
        if y.len() > 1 {
            assert(whole[1] == y[1]);
        }
        assert(a[0] == b[0]);
        assert(rest_a =~= whole.skip(x.len() as int));
        assert(rest_b =~= whole.skip(x.len() as int));
        law_escaped_loses_nothing(a.skip(1), b.skip(1));
    } else {
        assert(a =~= b);
    }
}

// ---------------------------------------------------------------- pages

/// What the local web server's page says for each of its placeholders.
pub open spec fn local_words(
    is_authenticated: bool,
    encrypt_web_sharing: bool,
    base_url: Seq<char>,
) -> Seq<(Seq<char>, Seq<char>)> {
    seq![
        ("IS_AUTHENTICATED"@, if is_authenticated { "true"@ } else { "false"@ }),
        ("EXPECTED_E2E"@, if encrypt_web_sharing { "true"@ } else { "false"@ }),
        ("IS_READ_ONLY"@, "false"@),
        ("SESSION_ROWS"@, "0"@),
        ("SESSION_COLS"@, "0"@),
        ("AUTH_MODE"@, "local"@),
        ("BASE_URL"@, http_handlers::escaped(base_url)),
    ]
}

/// What the page of a tunnel says for each of its placeholders: never that the
/// viewer is known, and always that encryption is to be expected.
pub open spec fn relay_words(slug: Seq<char>) -> Seq<(Seq<char>, Seq<char>)> {
    seq![
        ("IS_AUTHENTICATED"@, "false"@),
        ("EXPECTED_E2E"@, "true"@),
        ("BASE_URL"@, "/r/"@ + slug + "/"@),
    ]
}

/// Whether the placeholder `k` stands between `before` and `after`, and nowhere
/// else does any.
pub open spec fn one_placeholder(
    words: Seq<(Seq<char>, Seq<char>)>,
    k: int,
    before: Seq<char>,
    after: Seq<char>,
) -> bool {
    let template = before + words[k].0 + after;
    let page = before + words[k].1 + after;
    &&& forall|at: int|
        0 <= at < before.len() ==> !(#[trigger] text::occurs_at(template, words[k].0, at))
    &&& !text::contains_text(after, words[k].0)
    &&& forall|j: int|
        0 <= j < k ==> !text::contains_text(template, #[trigger] words[j].0)
    &&& forall|j: int|
        k < j < words.len() ==> !text::contains_text(page, #[trigger] words[j].0)
}

proof fn lemma_filled_once(before: Seq<char>, pattern: Seq<char>, after: Seq<char>, with: Seq<char>)
    requires
        pattern.len() > 0,
        forall|at: int|
            0 <= at < before.len() ==> !(#[trigger] text::occurs_at(
                before + pattern + after,
                pattern,
                at,
            )),
        !text::contains_text(after, pattern),
    ensures
        text::replaced(before + pattern + after, pattern, with) == before + with + after,
{
    text_laws::law_first_occurrence_replaced(before, pattern, after, with);
    text_laws::law_nothing_to_replace(after, pattern, with);
}

/// In the local web server's page each placeholder gives way to its word, and
/// the rest of the page stays.
pub proof fn law_local_page_filled(
    before: Seq<char>,
    after: Seq<char>,
    k: int,
    is_authenticated: bool,
    encrypt_web_sharing: bool,
    base_url: Seq<char>,
)
    requires
        0 <= k < 7,
        one_placeholder(
            local_words(is_authenticated, encrypt_web_sharing, base_url),
            k,
            before,
            after,
        ),
    ensures
        ({
            let words = local_words(is_authenticated, encrypt_web_sharing, base_url);
            http_handlers::local_page(
                before + words[k].0 + after,
                is_authenticated,
                encrypt_web_sharing,
                base_url,
            ) == before + words[k].1 + after
        }),
{
    let words = local_words(is_authenticated, encrypt_web_sharing, base_url);
    reveal_strlit("IS_AUTHENTICATED");
    reveal_strlit("EXPECTED_E2E");
    reveal_strlit("IS_READ_ONLY");
    reveal_strlit("SESSION_ROWS");
    reveal_strlit("SESSION_COLS");
    reveal_strlit("AUTH_MODE");
    reveal_strlit("BASE_URL");
    lemma_placeholder(words, k, 0, before, after);
    lemma_placeholder(words, k, 1, before, after);
    lemma_placeholder(words, k, 2, before, after);
    lemma_placeholder(words, k, 3, before, after);
    lemma_placeholder(words, k, 4, before, after);
    lemma_placeholder(words, k, 5, before, after);
    lemma_placeholder(words, k, 6, before, after);
}

/// What is left of the template after the first `n` placeholders.
spec fn stage(
    words: Seq<(Seq<char>, Seq<char>)>,
    k: int,
    n: int,
    before: Seq<char>,
    after: Seq<char>,
) -> Seq<char> {
    if n <= k {
        before + words[k].0 + after
    } else {
        before + words[k].1 + after
    }
}

proof fn lemma_placeholder(
    words: Seq<(Seq<char>, Seq<char>)>,
    k: int,
    j: int,
    before: Seq<char>,
    after: Seq<char>,
)
    requires
        0 <= k < words.len(),
        0 <= j < words.len(),
        words[k].0.len() > 0,
        one_placeholder(words, k, before, after),
    ensures
        text::replaced(stage(words, k, j, before, after), words[j].0, words[j].1) == stage(
            words,
            k,
            j + 1,
            before,
            after,
        ),
{
    if j == k {
        lemma_filled_once(before, words[k].0, after, words[k].1);
    } else {
        text_laws::law_nothing_to_replace(
            stage(words, k, j, before, after),
            words[j].0,
            words[j].1,
        );
    }
}

/// In the page of a tunnel each placeholder gives way to its word, and the rest
/// of the page stays.
pub proof fn law_relay_page_filled(before: Seq<char>, after: Seq<char>, k: int, slug: Seq<char>)
    requires
        0 <= k < 3,
        one_placeholder(relay_words(slug), k, before, after),
    ensures
        http_handlers::relay_page(before + relay_words(slug)[k].0 + after, slug) == before
            + relay_words(slug)[k].1 + after,
{
    let words = relay_words(slug);
    reveal_strlit("IS_AUTHENTICATED");
    reveal_strlit("EXPECTED_E2E");
    reveal_strlit("BASE_URL");
    lemma_placeholder(words, k, 0, before, after);
    lemma_placeholder(words, k, 1, before, after);
    lemma_placeholder(words, k, 2, before, after);
}

// ---------------------------------------------------------------- logins

/// The cookie of a login begins with its name and the token and is kept from
/// scripts and other sites. Over TLS it is marked as such, and a login that is
/// to be remembered adds how long, which is four weeks.
pub proof fn law_login_cookie(token: Seq<char>, is_https: bool, remember: bool)
    ensures
        text::begins_with(
            http_handlers::login_cookie(token, is_https, remember),
            "session_token"@ + "="@ + token + "; HttpOnly"@ + "; SameSite="@ + "Strict"@,
        ),
        http_handlers::login_cookie(token, is_https, true) == http_handlers::login_cookie(
            token,
            is_https,
            false,
        ) + "; Max-Age="@ + text::decimal((4 * 7 * 24 * 60 * 60) as nat),
        http_handlers::login_cookie(token, true, remember).len() == http_handlers::login_cookie(
            token,
            false,
            remember,
        ).len() + "; Secure"@.len(),
        text::occurs_at(
            http_handlers::login_cookie(token, true, remember),
            "; Secure"@,
            ("session_token"@ + "="@ + token + "; HttpOnly"@ + "; SameSite="@
                + "Strict"@).len() as int,
        ),
{
    let start = "session_token"@ + "="@ + token + "; HttpOnly"@ + "; SameSite="@ + "Strict"@;
    let whole = http_handlers::login_cookie(token, is_https, remember);
    assert(whole.subrange(0, start.len() as int) =~= start);
    let secured = http_handlers::login_cookie(token, true, remember);
    assert(secured.subrange(start.len() as int, (start.len() + "; Secure"@.len()) as int)
        =~= "; Secure"@);
    assert(http_handlers::login_cookie(token, is_https, true) =~= http_handlers::login_cookie(
        token,
        is_https,
        false,
    ) + "; Max-Age="@ + text::decimal((4 * 7 * 24 * 60 * 60) as nat));
}

/// A client is made exactly if the login names its session and the client could
/// be connected. It may write only where the login says so. It is told that its
/// terminal is encrypted exactly if there is a key, and that is the one of the
/// login's token and the tunnel.
pub proof fn law_new_client(
    is_read_only: Option<bool>,
    session_token_hash: Option<String>,
    auth_token_hash: Option<String>,
    os_api: Result<(), String>,
    encrypt_web_sharing: bool,
    local_tunnel_id: Seq<char>,
    web_client_id: Seq<char>,
    r: Result<NewClient, String>,
)
    requires
        http_handlers::client_created(
            is_read_only,
            session_token_hash,
            auth_token_hash,
            os_api,
            encrypt_web_sharing,
            local_tunnel_id,
            web_client_id,
            r,
        ),
    ensures
        r is Ok <==> session_token_hash is Some && os_api is Ok,
        r matches Ok(client) ==> {
            &&& session_token_hash == Some(client.session_token_hash)
            &&& client.response.web_client_id@ == web_client_id
            &&& client.response.tunnel_id@ == local_tunnel_id
            &&& client.response.session_rows == 0 && client.response.session_cols == 0
            &&& !client.response.is_read_only <==> is_read_only == Some(false)
            &&& client.response.e2e_encrypted <==> client.e2e_key is Some
            &&& client.e2e_key is Some <==> encrypt_web_sharing && auth_token_hash is Some
            &&& client.e2e_key matches Some(key) ==> key@ == crypto::derived_key(
                auth_token_hash->0@,
                local_tunnel_id,
            )
        },
        r matches Err(error) ==> session_token_hash is Some ==> os_api == Err::<(), String>(error),
{
}

// ---------------------------------------------------------------- files

/// What is taken off the front of a path is slashes, and all of them.
pub proof fn law_leading_slashes(path: Seq<char>)
    ensures
        ({
            let r = web_client_assets::without_leading_slashes(path);
            &&& r.len() <= path.len()
            &&& r == path.skip(path.len() - r.len())
            &&& forall|i: int| 0 <= i < path.len() - r.len() ==> #[trigger] path[i] == '/'
            &&& r.len() > 0 ==> r[0] != '/'
        }),
    decreases path.len(),
{
    if path.len() > 0 && path[0] == '/' {
        law_leading_slashes(path.skip(1));
        let r = web_client_assets::without_leading_slashes(path);
        assert(r =~= path.skip(path.len() - r.len()));
        assert forall|i: int| 0 <= i < path.len() - r.len() implies #[trigger] path[i] == '/' by {
            if i > 0 {
                assert(path.skip(1)[i - 1] == path[i]);
            }
        }
    } else {
        assert(path.skip(0) =~= path);
    }
}

proof fn lemma_after_last(stem: Seq<char>, c: char, rest: Seq<char>)
    requires
        !rest.contains(c),
    ensures
        web_client_assets::after_last(stem + seq![c] + rest, c) == stem.len() + 1,
        web_client_assets::after_last(rest, c) == 0,
    decreases rest.len(),
{
    let s = stem + seq![c] + rest;
    if rest.len() == 0 {
        assert(s.last() == c);
    } else {
        let shorter = rest.drop_last();
        assert(!shorter.contains(c)) by {
            if shorter.contains(c) {
                let i = choose|i: int| 0 <= i < shorter.len() && shorter[i] == c;
                assert(rest[i] == c);
            }
        }
        lemma_after_last(stem, c, shorter);
        assert(rest[rest.len() - 1] != c);
        assert(s.last() == rest.last());
        assert(s.drop_last() =~= stem + seq![c] + shorter);
    }
}

/// The extension of a file is what stands behind the last dot of its name,
/// whatever directories it is in.
pub proof fn law_extension_behind_dot(dirs: Seq<char>, stem: Seq<char>, ext: Seq<char>)
    requires
        stem.len() > 0,
        ext.len() > 0,
        !stem.contains('/'),
        !ext.contains('/'),
        !ext.contains('.'),
    ensures
        web_client_assets::extension(dirs + seq!['/'] + (stem + seq!['.'] + ext)) == Some(ext),
        web_client_assets::extension(stem + seq!['.'] + ext) == Some(ext),
{
    let name = stem + seq!['.'] + ext;
    lemma_after_last(stem, '.', ext);
    assert(name.skip(stem.len() as int + 1) =~= ext);
    reveal_strlit(".");
    reveal_strlit("..");
    assert(name.len() >= 3);
    assert(!name.contains('/')) by {
        if name.contains('/') {
            let i = choose|i: int| 0 <= i < name.len() && name[i] == '/';
            if i < stem.len() {
                assert(stem[i] == '/');
            } else if i > stem.len() {
                assert(ext[i - stem.len() - 1] == '/');
            }
        }
    }
    lemma_name_is_last(dirs, name);
}

/// A slash at the end of a path, or a slash and a dot, make no difference to its
/// extension.
pub proof fn law_extension_ignores_end(path: Seq<char>)
    ensures
        web_client_assets::extension(path + seq!['/']) == web_client_assets::extension(path),
        web_client_assets::extension(path + seq!['/'] + "."@) == web_client_assets::extension(path),
{
    reveal_strlit(".");
    let none = Seq::<char>::empty();
    let parts = text::pieces(path, '/');
    text_laws::law_pieces_add_up(path, none, '/');
    text_laws::law_pieces_add_up(path, "."@, '/');
    assert(path + seq!['/'] + none =~= path + seq!['/']);
    text::lemma_find_char(none, '/');
    text::lemma_find_char("."@, '/');
    assert(text::pieces(none, '/') == seq![none]);
    assert(text::pieces("."@, '/') == seq!["."@]);
    assert((parts + seq![none]).drop_last() =~= parts);
    assert((parts + seq!["."@]).drop_last() =~= parts);
}

/// A name without a dot has no extension, nor has one that begins with its only
/// dot.
pub proof fn law_no_extension(dirs: Seq<char>, name: Seq<char>)
    requires
        name.len() > 0,
        !name.contains('/'),
        !name.contains('.'),
    ensures
        web_client_assets::extension(dirs + seq!['/'] + name) is None,
        web_client_assets::extension(name) is None,
        web_client_assets::extension(dirs + seq!['/'] + (seq!['.'] + name)) is None,
{
    reveal_strlit(".");
    assert(name[0] != '.');
    lemma_after_last(Seq::empty(), '.', name);
    lemma_name_is_last(dirs, name);
    let hidden = seq!['.'] + name;
    assert(Seq::<char>::empty() + seq!['.'] + name =~= hidden);
    assert(!hidden.contains('/')) by {
        if hidden.contains('/') {
            let i = choose|i: int| 0 <= i < hidden.len() && hidden[i] == '/';
            assert(name[i - 1] == '/');
        }
    }
    lemma_name_is_last(dirs, hidden);
}

proof fn lemma_name_is_last(dirs: Seq<char>, name: Seq<char>)
    requires
        name.len() > 0,
        name != "."@,
        !name.contains('/'),
    ensures
        web_client_assets::last_name(text::pieces(dirs + seq!['/'] + name, '/')) == Some(name),
        web_client_assets::last_name(text::pieces(name, '/')) == Some(name),
{
    text::lemma_find_char(name, '/');
    assert(text::pieces(name, '/') == seq![name]);
    text_laws::law_pieces_add_up(dirs, name, '/');
    let parts = text::pieces(dirs + seq!['/'] + name, '/');
    assert(parts.last() == name);
    assert(seq![name].last() == name);
}

/// No two kinds of file but those of plain text have the same content type.
pub proof fn law_content_types_distinct(a: Seq<char>, b: Seq<char>)
    requires
        web_client_assets::mime_type(Some(a)) == web_client_assets::mime_type(Some(b)),
        web_client_assets::mime_type(Some(a)) != web_client_assets::mime_type(None),
    ensures
        a == b,
{
    reveal_strlit("text/plain");
    reveal_strlit("text/html");
    reveal_strlit("text/css");
    reveal_strlit("application/javascript");
    reveal_strlit("application/wasm");
    reveal_strlit("image/png");
    reveal_strlit("image/x-icon");
    reveal_strlit("image/svg+xml");
    let x = web_client_assets::mime_type(Some(a));
    assert("text/plain"@.len() == 10 && "text/html"@.len() == 9 && "text/css"@.len() == 8);
    assert("application/javascript"@.len() == 22 && "application/wasm"@.len() == 16);
    assert("image/png"@.len() == 9 && "image/x-icon"@.len() == 12 && "image/svg+xml"@.len() == 13);
    assert(x.len() == 9 ==> x == "text/html"@ || x == "image/png"@);
    assert("text/html"@[0] == 't' && "image/png"@[0] == 'i');
}

/// Pictures have the content type of a picture, style sheets and pages that of a
/// text, programs that of an application, and everything else that of a text
/// that says nothing. The content type names the kind.
pub proof fn law_content_type_names_kind(ext: Seq<char>)
    ensures
        ({
            let t = web_client_assets::mime_type(Some(ext));
            &&& text::begins_with(t, "image/"@) <==> ext == "png"@ || ext == "ico"@ || ext
                == "svg"@
            &&& text::begins_with(t, "application/"@) <==> ext == "js"@ || ext == "wasm"@
            &&& ext == "html"@ || ext == "css"@ || ext == "png"@ || ext == "wasm"@
                ==> text::ends_with(t, seq!['/'] + ext)
            &&& ext == "js"@ ==> text::ends_with(t, "javascript"@)
            &&& ext == "svg"@ ==> text::ends_with(t, "svg+xml"@)
            &&& ext == "ico"@ ==> text::ends_with(t, "x-icon"@)
            &&& t == web_client_assets::mime_type(None) <==> ext != "html"@ && ext != "css"@ && ext
                != "js"@ && ext != "wasm"@ && ext != "png"@ && ext != "ico"@ && ext != "svg"@
        }),
{
    reveal_strlit("text/plain");
    reveal_strlit("text/html");
    reveal_strlit("text/css");
    reveal_strlit("application/javascript");
    reveal_strlit("application/wasm");
    reveal_strlit("image/png");
    reveal_strlit("image/x-icon");
    reveal_strlit("image/svg+xml");
    reveal_strlit("image/");
    reveal_strlit("application/");
    reveal_strlit("javascript");
    reveal_strlit("svg+xml");
    reveal_strlit("x-icon");
    reveal_strlit("html");
    reveal_strlit("css");
    reveal_strlit("js");
    reveal_strlit("wasm");
    reveal_strlit("png");
    reveal_strlit("ico");
    reveal_strlit("svg");
    let t = web_client_assets::mime_type(Some(ext));
    assert("html"@.len() == 4 && "css"@.len() == 3 && "js"@.len() == 2 && "wasm"@.len() == 4);
    assert("png"@.len() == 3 && "ico"@.len() == 3 && "svg"@.len() == 3);
    assert("html"@[0] == 'h' && "wasm"@[0] == 'w' && "css"@[0] == 'c');
    assert("png"@[0] == 'p' && "ico"@[0] == 'i' && "svg"@[0] == 's');
    assert("text/plain"@[0] == 't' && "text/html"@[0] == 't' && "text/css"@[0] == 't');
    assert("image/png"@[0] == 'i' && "image/x-icon"@[0] == 'i' && "image/svg+xml"@[0] == 'i');
    assert("application/javascript"@[0] == 'a' && "application/wasm"@[0] == 'a');
    if text::begins_with(t, "image/"@) {
        assert(t.subrange(0, 6)[0] == 'i');
        assert(t[0] == 'i');
    }
    assert("image/png"@.subrange(0, 6) =~= "image/"@);
    assert("image/x-icon"@.subrange(0, 6) =~= "image/"@);
    assert("image/svg+xml"@.subrange(0, 6) =~= "image/"@);
    assert("application/javascript"@.subrange(0, 12) =~= "application/"@);
    assert("application/wasm"@.subrange(0, 12) =~= "application/"@);
    if text::begins_with(t, "application/"@) {
        assert(t.subrange(0, 12)[0] == 'a');
        assert(t[0] == 'a');
    }
    assert("text/html"@.subrange(4, 9) =~= seq!['/'] + "html"@);
    assert("text/css"@.subrange(4, 8) =~= seq!['/'] + "css"@);
    assert("image/png"@.subrange(5, 9) =~= seq!['/'] + "png"@);
    assert("application/wasm"@.subrange(11, 16) =~= seq!['/'] + "wasm"@);
    assert("application/javascript"@.subrange(12, 22) =~= "javascript"@);
    assert("image/svg+xml"@.subrange(6, 13) =~= "svg+xml"@);
    assert("image/x-icon"@.subrange(6, 12) =~= "x-icon"@);
    assert("text/plain"@.len() == 10 && "text/html"@.len() == 9 && "text/css"@.len() == 8);
    assert("application/javascript"@.len() == 22 && "application/wasm"@.len() == 16);
    assert("image/png"@.len() == 9 && "image/x-icon"@.len() == 12 && "image/svg+xml"@.len() == 13);
}

/// A bundled file is found under its path, with or without a slash in front,
/// with its bytes and the content type of its extension. What is not bundled is
/// not found. The clipboard module is the one that was given, where one was.
pub proof fn law_bundled_file_found(
    dir: Dir<'static>,
    clip_wasm: Option<&'static [u8]>,
    path: Seq<char>,
    r: Option<AssetResponse>,
)
    requires
        path.len() > 0 ==> path[0] != '/',
        web_client_assets::asset_found(dir, clip_wasm, path, r)
            || web_client_assets::asset_found(dir, clip_wasm, seq!['/'] + path, r),
    ensures
        path != "clip.wasm"@ || clip_wasm is None ==> (r is Some
            <==> web_client_assets::bundled_files(dir).contains_key(path)) && (
        r matches Some(file) ==> file.contents@ == web_client_assets::bundled_files(dir)[path]
            && file.content_type@ == web_client_assets::mime_type(
            web_client_assets::extension(path),
        )),
        path == "clip.wasm"@ && clip_wasm is Some ==> (r matches Some(file) && file.contents@
            == clip_wasm->0@),
{
    assert((seq!['/'] + path).skip(1) =~= path);
    reveal_with_fuel(web_client_assets::without_leading_slashes, 2);
}

/// A version that the relay neither is nor has a copy of has no files. In the
/// relay's own version the files are the current ones, and in another one those
/// under the version's name in the copies.
pub proof fn law_files_of_version(
    current: Dir<'static>,
    clip_wasm: Option<&'static [u8]>,
    copies: Dir<'static>,
    version: Seq<char>,
    path: Seq<char>,
    r: Option<AssetResponse>,
)
    requires
        path.len() > 0 ==> path[0] != '/',
        path != "clip.wasm"@,
        versioned_assets::versioned_asset_found(current, clip_wasm, copies, version, path, r),
    ensures
        version != RELAY_VERSION@ && !web_client_assets::bundled_dirs(copies).contains(version)
            ==> r is None,
        version == RELAY_VERSION@ ==> (r is Some <==> web_client_assets::bundled_files(
            current,
        ).contains_key(path)) && (r matches Some(file) ==> file.contents@
            == web_client_assets::bundled_files(current)[path]),
        version != RELAY_VERSION@ && web_client_assets::bundled_dirs(copies).contains(version) ==> (
        r is Some <==> web_client_assets::bundled_files(copies).contains_key(
            version + "/"@ + path,
        )) && (r matches Some(file) ==> file.contents@ == web_client_assets::bundled_files(
            copies,
        )[version + "/"@ + path]),
{
}

/// What is served is what is found: a file where there is one, with its bytes; a
/// hint where the version is not known; and otherwise the word that there is
/// none.
pub proof fn law_served_is_found(
    current: Dir<'static>,
    clip_wasm: Option<&'static [u8]>,
    copies: Dir<'static>,
    version: Seq<char>,
    path: Seq<char>,
    served: ServedAsset,
    found: Option<AssetResponse>,
)
    requires
        versioned_assets::asset_served(current, clip_wasm, copies, version, path, served),
        versioned_assets::versioned_asset_found(current, clip_wasm, copies, version, path, found),
    ensures
        served is Found <==> found is Some,
        served matches ServedAsset::Found(file) ==> file.contents@ == found->0.contents@
            && file.content_type@ == found->0.content_type@,
        served is UnsupportedVersion <==> version != RELAY_VERSION@
            && !web_client_assets::bundled_dirs(copies).contains(version),
{
}

/// A login is accepted exactly if a token was made for it. It is then told so, and
/// gets the token in its cookie; otherwise it is told that its token is not
/// valid, and gets none.
pub proof fn law_login_answer(
    session_token: Option<String>,
    remember_me: Option<bool>,
    is_https: bool,
    reply: LoginReply,
)
    requires
        http_handlers::login_answered(session_token, remember_me, is_https, reply),
    ensures
        reply is Accepted <==> session_token is Some,
        reply matches LoginReply::Accepted { response, cookie } ==> response.success
            && response.message@ == "Login successful"@ && cookie@ == http_handlers::login_cookie(session_token->0@, is_https, remember_me == Some(true)),
        reply matches LoginReply::Rejected { response } ==> !response.success && response.message@
            == "Invalid authentication token"@,
{
}

} // verus!
