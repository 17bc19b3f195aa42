//! The files of the web client.

use crate::text;
use include_dir::Dir;
use vstd::prelude::*;

verus! {

/// A directory of files that were bundled into the program.
#[verifier::external_type_specification]
#[verifier::external_body]
pub struct ExDir<'a>(Dir<'a>);

/// What a bundle holds: for each path that leads to a file, the file's bytes.
pub uninterp spec fn bundled_files(dir: Dir<'static>) -> Map<Seq<char>, Seq<u8>>;

/// The paths that lead to a directory of a bundle.
pub uninterp spec fn bundled_dirs(dir: Dir<'static>) -> Set<Seq<char>>;

/// `include_dir::Dir`'s `get_file`: the bytes of the file that a path leads to.
/// Which paths lead to a file is left to the bundle.
#[verifier::external_body]
pub(crate) fn find_file(dir: &Dir<'static>, path: &str) -> (r: Option<&'static [u8]>)
    ensures
        match r {
            Some(contents) => bundled_files(*dir).contains_key(path@) && bundled_files(*dir)[path@]
                == contents@,
            None => !bundled_files(*dir).contains_key(path@),
        },
{
    Some(dir.get_file(path)?.contents())
}

/// `include_dir::Dir`'s `get_dir`: whether a path leads to a directory.
#[verifier::external_body]
pub(crate) fn has_dir(dir: &Dir<'static>, path: &str) -> (r: bool)
    ensures
        r == bundled_dirs(*dir).contains(path@),
{
    dir.get_dir(path).is_some()
}

/// A file that was found.
#[derive(Debug, Clone, Copy)]
pub struct AssetResponse {
    pub content_type: &'static str,
    pub contents: &'static [u8],
}

/// Without the slashes at the front.
pub open spec fn without_leading_slashes(path: Seq<char>) -> Seq<char>
    decreases path.len(),
{
    if path.len() > 0 && path[0] == '/' {
        without_leading_slashes(path.skip(1))
    } else {
        path
    }
}

pub fn trim_leading_slashes(path: &str) -> (r: String)
    ensures
        r@ == without_leading_slashes(path@),
{
    let chars = text::chars_of(path);
    let mut from: usize = 0;
    proof {
        assert(chars@.skip(0) =~= path@);
    }
    while from < chars.len() && chars[from] == '/'
        invariant
            from <= chars@.len(),
            without_leading_slashes(chars@.skip(from as int)) == without_leading_slashes(path@),
        decreases chars@.len() - from,
    {
        proof {
            assert(chars@.skip(from as int).skip(1) =~= chars@.skip(from + 1));
        }
        from = from + 1;
    }
    text::text_of(vstd::slice::slice_subrange(chars.as_slice(), from, chars.len()))
}

/// Where `c` stands last in `s`, as the number of characters up to and with
/// it; 0 where it does not occur.
pub open spec fn after_last(s: Seq<char>, c: char) -> nat
    decreases s.len(),
{
    if s.len() == 0 {
        0
    } else if s.last() == c {
        s.len()
    } else {
        after_last(s.drop_last(), c)
    }
}

fn after_last_index(s: &[char], c: char) -> (n: usize)
    ensures
        n == after_last(s@, c),
        n <= s@.len(),
{
    let mut n: usize = s.len();
    proof {
        assert(s@.take(n as int) =~= s@);
    }
    while n > 0 && s[n - 1] != c
        invariant
            n <= s@.len(),
            after_last(s@.take(n as int), c) == after_last(s@, c),
        decreases n,
    {
        proof {
            assert(s@.take(n as int).drop_last() =~= s@.take(n - 1));
        }
        n = n - 1;
    }
    proof {
        if n > 0 {
            assert(s@.take(n as int).last() == c);
        }
    }
    n
}

/// The last of the parts between slashes that is a name: empty parts and single
/// dots are none.
pub open spec fn last_name(parts: Seq<Seq<char>>) -> Option<Seq<char>>
    decreases parts.len(),
{
    if parts.len() == 0 {
        None
    } else if parts.last().len() == 0 || parts.last() == "."@ {
        last_name(parts.drop_last())
    } else {
        Some(parts.last())
    }
}

/// What stands behind the last dot of the name that a path ends with. A name
/// without a dot, one whose only dot is its first character, and `..` have no
/// extension.
pub open spec fn extension(path: Seq<char>) -> Option<Seq<char>> {
    match last_name(text::pieces(path, '/')) {
        Some(name) => {
            let dot = after_last(name, '.');
            if dot <= 1 || name == ".."@ {
                None
            } else {
                Some(name.skip(dot as int))
            }
        },
        None => None,
    }
}

fn last_name_text(path: &str) -> (r: Option<String>)
    ensures
        match last_name(text::pieces(path@, '/')) {
            Some(name) => r matches Some(t) && t@ == name,
            None => r is None,
        },
{
    let parts = text::split(path, '/');
    let ghost all = text::text_views(parts@);
    let mut n: usize = parts.len();
    proof {
        assert(all.take(n as int) =~= all);
    }
    while n > 0
        invariant
            n <= parts@.len(),
            all == text::text_views(parts@),
            all == text::pieces(path@, '/'),
            last_name(all.take(n as int)) == last_name(all),
        decreases n,
    {
        let part = &parts[n - 1];
        proof {
            assert(all.take(n as int).last() == part@);
            assert(all.take(n as int).drop_last() =~= all.take(n - 1));
        }
        if !part.as_str().is_empty() && !text::same_text(part.as_str(), ".") {
            return Some(part.clone());
        }
        n = n - 1;
    }
    None
}

fn extension_text(path: &str) -> (r: Option<String>)
    ensures
        match extension(path@) {
            Some(e) => r matches Some(ext) && ext@ == e,
            None => r is None,
        },
{
    let name = match last_name_text(path) {
        Some(name) => name,
        None => {
            return None;
        },
    };
    let chars = text::chars_of(name.as_str());
    let dot = after_last_index(chars.as_slice(), '.');
    if dot <= 1 || text::same_text(name.as_str(), "..") {
        None
    } else {
        let ext = vstd::slice::slice_subrange(chars.as_slice(), dot, chars.len());
        proof {
            assert(ext@ =~= name@.skip(dot as int));
        }
        Some(text::text_of(ext))
    }
}

/// The content type for a file's extension.
pub open spec fn mime_type(ext: Option<Seq<char>>) -> Seq<char> {
    match ext {
        None => "text/plain"@,
        Some(e) => if e == "html"@ {
            "text/html"@
        } else if e == "css"@ {
            "text/css"@
        } else if e == "js"@ {
            "application/javascript"@
        } else if e == "wasm"@ {
            "application/wasm"@
        } else if e == "png"@ {
            "image/png"@
        } else if e == "ico"@ {
            "image/x-icon"@
        } else if e == "svg"@ {
            "image/svg+xml"@
        } else {
            "text/plain"@
        },
    }
}

/// The content type for a file's extension; plain text for any that is not
/// known.
pub fn mime_type_for_extension(ext: Option<&str>) -> (content_type: &'static str)
    ensures
        content_type@ == mime_type(
            match ext {
                Some(e) => Some(e@),
                None => None,
            },
        ),
{
    let e = match ext {
        Some(e) => e,
        None => {
            return "text/plain";
        },
    };
    if text::same_text(e, "html") {
        "text/html"
    } else if text::same_text(e, "css") {
        "text/css"
    } else if text::same_text(e, "js") {
        "application/javascript"
    } else if text::same_text(e, "wasm") {
        "application/wasm"
    } else if text::same_text(e, "png") {
        "image/png"
    } else if text::same_text(e, "ico") {
        "image/x-icon"
    } else if text::same_text(e, "svg") {
        "image/svg+xml"
    } else {
        "text/plain"
    }
}

/// Whether `r` is the answer for the file that `path` leads to.
pub open spec fn is_file_response(
    dir: Dir<'static>,
    path: Seq<char>,
    r: Option<AssetResponse>,
) -> bool {
    if bundled_files(dir).contains_key(path) {
        r matches Some(response) && response.content_type@ == mime_type(extension(path))
            && response.contents@ == bundled_files(dir)[path]
    } else {
        r is None
    }
}

/// The file that a path leads to.
pub(crate) fn file_response(dir: &Dir<'static>, path: &str) -> (r: Option<AssetResponse>)
    ensures
        is_file_response(*dir, path@, r),
{
    match find_file(dir, path) {
        Some(contents) => {
            let ext = extension_text(path);
            let content_type = match &ext {
                Some(e) => mime_type_for_extension(Some(e.as_str())),
                None => mime_type_for_extension(None),
            };
            Some(AssetResponse { content_type, contents })
        },
        None => None,
    }
}

/// What [`lookup`] returns.
pub open spec fn asset_found(
    dir: Dir<'static>,
    clip_wasm: Option<&'static [u8]>,
    path: Seq<char>,
    r: Option<AssetResponse>,
) -> bool {
    let trimmed = without_leading_slashes(path);
    if trimmed == "clip.wasm"@ && clip_wasm is Some {
        r matches Some(response) && response.content_type@ == "application/wasm"@
            && response.contents@ == clip_wasm->0@
    } else {
        is_file_response(dir, trimmed, r)
    }
}

/// The file under a path that may begin with slashes. `clip_wasm` stands in for
/// the bundled `clip.wasm`, where it is given.
pub fn lookup(dir: &Dir<'static>, clip_wasm: Option<&'static [u8]>, path: &str) -> (r: Option<
    AssetResponse,
>)
    ensures
        asset_found(*dir, clip_wasm, path@, r),
{
    let trimmed = trim_leading_slashes(path);
    if text::same_text(trimmed.as_str(), "clip.wasm") {
        match clip_wasm {
            Some(contents) => {
                return Some(AssetResponse { content_type: "application/wasm", contents });
            },
            None => {},
        }
    }
    file_response(dir, trimmed.as_str())
}

proof fn lemma_trimmed_once(path: Seq<char>)
    ensures
        without_leading_slashes(without_leading_slashes(path)) == without_leading_slashes(path),
    decreases path.len(),
{
    if path.len() > 0 && path[0] == '/' {
        lemma_trimmed_once(path.skip(1));
    }
}

/// Slashes at the front of a path make no difference: the same file is found
/// without them, with the same content type and the same bytes.
pub proof fn law_lookup_ignores_leading_slashes(
    dir: Dir<'static>,
    clip_wasm: Option<&'static [u8]>,
    path: Seq<char>,
    with_slashes: Option<AssetResponse>,
    without_slashes: Option<AssetResponse>,
)
    requires
        asset_found(dir, clip_wasm, path, with_slashes),
        asset_found(dir, clip_wasm, without_leading_slashes(path), without_slashes),
    ensures
        with_slashes is Some <==> without_slashes is Some,
        with_slashes is Some ==> with_slashes->0.content_type@ == without_slashes->0.content_type@
            && with_slashes->0.contents@ == without_slashes->0.contents@,
{
    lemma_trimmed_once(path);
}

} // verus!
