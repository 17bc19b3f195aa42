//! The web client in the versions of session hosts that the relay knows: its
//! own, and those that it carries copies of.

use crate::text;
use crate::web_client_assets;
use crate::web_client_assets::AssetResponse;
use include_dir::Dir;
use vstd::prelude::*;
use vstd::string::*;

verus! {

/// The relay's own version.
pub const RELAY_VERSION: &'static str = "0.1.0";

/// Whether a version is the relay's own or one that `copies` holds a directory
/// of.
pub open spec fn known_version(copies: Dir<'static>, version: Seq<char>) -> bool {
    version == RELAY_VERSION@ || web_client_assets::bundled_dirs(copies).contains(version)
}

/// Whether the relay has the web client in a version. `copies` holds a
/// directory per version.
pub fn has_version(copies: &Dir<'static>, version: &str) -> (r: bool)
    ensures
        r == known_version(*copies, version@),
{
    text::same_text(version, RELAY_VERSION) || web_client_assets::has_dir(copies, version)
}

/// A file of the web client in a version: from `current` for the relay's own
/// version, else from the version's directory in `copies`. There is none in a
/// version that is not known.
pub fn lookup(
    current: &Dir<'static>,
    clip_wasm: Option<&'static [u8]>,
    copies: &Dir<'static>,
    version: &str,
    path: &str,
) -> (r: Option<AssetResponse>)
    ensures
        versioned_asset_found(*current, clip_wasm, *copies, version@, path@, r),
        r is Some ==> known_version(*copies, version@),
{
    if text::same_text(version, RELAY_VERSION) {
        return web_client_assets::lookup(current, clip_wasm, path);
    }
    if !has_version(copies, version) {
        return None;
    }
    let trimmed = web_client_assets::trim_leading_slashes(path);
    let joined = version.to_string().concat("/").concat(trimmed.as_str());
    web_client_assets::file_response(copies, joined.as_str())
}

/// The answer to a request for a file of the web client.
#[derive(Debug)]
pub enum ServedAsset {
    Found(AssetResponse),
    /// Status 404.
    Missing,
    /// Status 404, and a hint that the session host needs another version.
    UnsupportedVersion,
}

/// What [`serve_asset`] returns.
pub open spec fn asset_served(
    current: Dir<'static>,
    clip_wasm: Option<&'static [u8]>,
    copies: Dir<'static>,
    version: Seq<char>,
    path: Seq<char>,
    served: ServedAsset,
) -> bool {
    let trimmed = web_client_assets::without_leading_slashes(path);
    let own = version == RELAY_VERSION@;
    let file = version + "/"@ + trimmed;
    if !known_version(copies, version) {
        served is UnsupportedVersion
    } else if own && trimmed == "clip.wasm"@ && clip_wasm is Some {
        served matches ServedAsset::Found(response) && response.content_type@
            == "application/wasm"@ && response.contents@ == clip_wasm->0@
    } else if own && web_client_assets::bundled_files(current).contains_key(trimmed) {
        served matches ServedAsset::Found(response) && web_client_assets::is_file_response(
            current,
            trimmed,
            Some(response),
        )
    } else if !own && web_client_assets::bundled_files(copies).contains_key(file) {
        served matches ServedAsset::Found(response) && web_client_assets::is_file_response(
            copies,
            file,
            Some(response),
        )
    } else {
        served is Missing
    }
}

/// A file of the web client for a tunnel whose session host has this version.
pub fn serve_asset(
    current: &Dir<'static>,
    clip_wasm: Option<&'static [u8]>,
    copies: &Dir<'static>,
    version: &str,
    path: &str,
) -> (served: ServedAsset)
    ensures
        asset_served(*current, clip_wasm, *copies, version@, path@, served),
{
    if !has_version(copies, version) {
        return ServedAsset::UnsupportedVersion;
    }
    match lookup(current, clip_wasm, copies, version, path) {
        Some(response) => ServedAsset::Found(response),
        None => ServedAsset::Missing,
    }
}

/// Whether a bundle is laid out as directories are: whoever finds a file in a
/// directory finds the directory.
pub open spec fn nested(copies: Dir<'static>) -> bool {
    forall|version: Seq<char>, path: Seq<char>|
        #![trigger web_client_assets::bundled_files(copies).contains_key(version + "/"@ + path)]
        web_client_assets::bundled_files(copies).contains_key(version + "/"@ + path)
            ==> web_client_assets::bundled_dirs(copies).contains(version)
}

/// What [`lookup`] returns.
pub open spec fn versioned_asset_found(
    current: Dir<'static>,
    clip_wasm: Option<&'static [u8]>,
    copies: Dir<'static>,
    version: Seq<char>,
    path: Seq<char>,
    r: Option<AssetResponse>,
) -> bool {
    if version == RELAY_VERSION@ {
        web_client_assets::asset_found(current, clip_wasm, path, r)
    } else if known_version(copies, version) {
        web_client_assets::is_file_response(
            copies,
            version + "/"@ + web_client_assets::without_leading_slashes(path),
            r,
        )
    } else {
        r is None
    }
}

/// In another version than the relay's own a file is found exactly where the
/// copies hold it under the version's directory, with its bytes and the content
/// type of its extension; what is found is always in a version that is known.
pub proof fn law_copy_found_where_held(
    current: Dir<'static>,
    clip_wasm: Option<&'static [u8]>,
    copies: Dir<'static>,
    version: Seq<char>,
    path: Seq<char>,
    r: Option<AssetResponse>,
)
    requires
        nested(copies),
        versioned_asset_found(current, clip_wasm, copies, version, path, r),
    ensures
        version != RELAY_VERSION@ ==> web_client_assets::is_file_response(
            copies,
            version + "/"@ + web_client_assets::without_leading_slashes(path),
            r,
        ),
        r is Some ==> known_version(copies, version),
{
}

} // verus!
