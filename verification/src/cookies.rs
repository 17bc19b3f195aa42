//! Cookies: the text of a `Set-Cookie` header and the pairs of a `Cookie`
//! header.

use crate::text;
use axum_extra::extract::cookie::{Cookie, SameSite};
use vstd::prelude::*;

verus! {

/// Which requests from other sites a cookie is sent with.
#[derive(Clone, Copy, PartialEq, Eq, Structural, Debug)]
pub enum SitePolicy {
    Strict,
    Lax,
    AnySite,
}

impl SitePolicy {
    pub open spec fn text(self) -> Seq<char> {
        match self {
            SitePolicy::Strict => "Strict"@,
            SitePolicy::Lax => "Lax"@,
            SitePolicy::AnySite => "None"@,
        }
    }
}

/// The text of a `Set-Cookie` header. `max_age` is in seconds.
pub open spec fn cookie_text(
    name: Seq<char>,
    value: Seq<char>,
    http_only: bool,
    site: SitePolicy,
    secure: bool,
    path: Seq<char>,
    max_age: Option<u32>,
) -> Seq<char> {
    name + "="@ + value + (if http_only {
        "; HttpOnly"@
    } else {
        Seq::empty()
    }) + "; SameSite="@ + site.text() + (if secure {
        "; Secure"@
    } else {
        Seq::empty()
    }) + "; Path="@ + path + (match max_age {
        Some(seconds) => "; Max-Age="@ + text::decimal(seconds as nat),
        None => Seq::empty(),
    })
}

/// `cookie::Cookie`'s `to_string`, on a cookie with these attributes and no
/// others: name and value, then the attributes in this order.
#[verifier::external_body]
pub(crate) fn render_cookie(
    name: &str,
    value: &str,
    http_only: bool,
    site: SitePolicy,
    secure: bool,
    path: &str,
    max_age: Option<u32>,
) -> (s: String)
    ensures
        s@ == cookie_text(name@, value@, http_only, site, secure, path@, max_age),
{
    let mut cookie = Cookie::new(name.to_owned(), value.to_owned());
    cookie.set_http_only(http_only);
    cookie.set_same_site(match site {
        SitePolicy::Strict => SameSite::Strict,
        SitePolicy::Lax => SameSite::Lax,
        SitePolicy::AnySite => SameSite::None,
    });
    cookie.set_secure(secure);
    cookie.set_path(path.to_owned());
    cookie.set_max_age(max_age.map(|s| time::Duration::seconds(i64::from(s))));
    cookie.to_string()
}

/// The name and the value of a cookie: what stands before and behind the first
/// `=`, up to a `;`, each without the white space around it. There is no
/// cookie without a `=` or with an empty name.
pub open spec fn cookie_pair(s: Seq<char>) -> Option<(Seq<char>, Seq<char>)> {
    let head = text::pieces(s, ';')[0];
    match text::find_char(head, '=') {
        None => None,
        Some(i) => {
            let name = text::trimmed(head.take(i as int));
            let value = text::trimmed(head.skip(i as int + 1));
            if name.len() == 0 {
                None
            } else {
                Some((name, value))
            }
        },
    }
}

/// `cookie::Cookie::parse`, of which only name and value are kept.
#[verifier::external_body]
fn parse_cookie(s: String) -> (r: Option<(String, String)>)
    ensures
        match cookie_pair(s@) {
            Some((n, v)) => r matches Some((name, value)) && name@ == n && value@ == v,
            None => r is None,
        },
{
    match Cookie::parse(s) {
        Ok(c) => Some((c.name().to_owned(), c.value().to_owned())),
        Err(_) => None,
    }
}

/// The pieces of all headers, in order, each without the white space around
/// it.
pub open spec fn header_pieces(headers: Seq<Seq<char>>) -> Seq<Seq<char>>
    decreases headers.len(),
{
    if headers.len() == 0 {
        Seq::empty()
    } else {
        header_pieces(headers.drop_last()) + text::pieces(headers.last(), ';').map_values(
            |p: Seq<char>| text::trimmed(p),
        )
    }
}

/// The value of the last cookie of a name among `pieces`.
pub open spec fn last_value(pieces: Seq<Seq<char>>, name: Seq<char>) -> Option<Seq<char>>
    decreases pieces.len(),
{
    if pieces.len() == 0 {
        None
    } else {
        match cookie_pair(pieces.last()) {
            Some((n, v)) => if n == name {
                Some(v)
            } else {
                last_value(pieces.drop_last(), name)
            },
            None => last_value(pieces.drop_last(), name),
        }
    }
}

/// The value of the cookie `name` in the `Cookie` headers of a request; where
/// the name occurs more than once, the last one counts.
pub open spec fn cookie_in(headers: Seq<Seq<char>>, name: Seq<char>) -> Option<Seq<char>> {
    last_value(header_pieces(headers), name)
}

fn trimmed_pieces(header: &str) -> (r: Vec<String>)
    ensures
        text::text_views(r@) == text::pieces(header@, ';').map_values(
            |p: Seq<char>| text::trimmed(p),
        ),
{
    let parts = text::split(header, ';');
    let mut r: Vec<String> = Vec::new();
    let mut i: usize = 0;
    while i < parts.len()
        invariant
            i <= parts@.len(),
            r@.len() == i,
            forall|j: int| 0 <= j < i ==> (#[trigger] r@[j])@ == text::trimmed(parts@[j]@),
        decreases parts@.len() - i,
    {
        r.push(text::trim(parts[i].as_str()));
        i = i + 1;
    }
    proof {
        let p = text::pieces(header@, ';');
        assert forall|j: int| 0 <= j < p.len() implies #[trigger] text::text_views(r@)[j]
            == text::trimmed(p[j]) by {
            assert(text::text_views(parts@)[j] == parts@[j]@);
        }
        assert(text::text_views(r@) =~= p.map_values(|p: Seq<char>| text::trimmed(p)));
    }
    r
}

/// Looks a cookie up in the `Cookie` headers of a request.
pub fn find_cookie(headers: &[String], name: &str) -> (r: Option<String>)
    ensures
        match cookie_in(text::text_views(headers@), name@) {
            Some(v) => r matches Some(value) && value@ == v,
            None => r is None,
        },
{
    let mut found: Option<String> = None;
    let ghost views = text::text_views(headers@);
    let mut i: usize = 0;
    proof {
        assert(views.take(0) =~= Seq::<Seq<char>>::empty());
    }
    while i < headers.len()
        invariant
            i <= headers@.len(),
            views == text::text_views(headers@),
            match last_value(header_pieces(views.take(i as int)), name@) {
                Some(v) => found matches Some(value) && value@ == v,
                None => found is None,
            },
        decreases headers@.len() - i,
    {
        let parts = trimmed_pieces(headers[i].as_str());
        let ghost before = header_pieces(views.take(i as int));
        let ghost parts_view = text::text_views(parts@);
        let mut j: usize = 0;
        proof {
            assert(before + parts_view.take(0) =~= before);
        }
        while j < parts.len()
            invariant
                j <= parts@.len(),
                parts_view == text::text_views(parts@),
                match last_value(before + parts_view.take(j as int), name@) {
                    Some(v) => found matches Some(value) && value@ == v,
                    None => found is None,
                },
            decreases parts@.len() - j,
        {
            let part = parts[j].clone();
            proof {
                let now = before + parts_view.take(j as int + 1);
                assert(now.drop_last() =~= before + parts_view.take(j as int));
                assert(now.last() == part@);
            }
            match parse_cookie(part) {
                Some((n, v)) => {
                    if text::same_text(n.as_str(), name) {
                        found = Some(v);
                    }
                },
                None => {},
            }
            j = j + 1;
        }
        proof {
            let now = views.take(i as int + 1);
            assert(now.drop_last() =~= views.take(i as int));
            assert(now.last() == headers@[i as int]@);
            assert(before + parts_view.take(j as int) =~= header_pieces(now));
        }
        i = i + 1;
    }
    proof {
        assert(views.take(i as int) =~= views);
    }
    found
}

} // verus!
