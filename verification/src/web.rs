//! What the web dashboard serves: which embedded file answers a request path,
//! with which headers, and the scanner settings it reports.

use vstd::prelude::*;
use vstd::string::*;
use crate::text::{contains_char, same_text, starts_with_text};

verus! {

/// Which transports are being scanned.
#[derive(Clone, Copy, Debug)]
pub struct ScanConfig {
    pub bluetooth: bool,
    pub wifi: bool,
}

/// The name of the guessed MIME type of `path`, as `mime_guess::from_path`
/// and `first_or_octet_stream` give it (from the file extension).
pub uninterp spec fn guessed_content_type(path: Seq<char>) -> Seq<char>;

/// Calls `mime_guess::from_path(path).first_or_octet_stream()` and returns the
/// MIME type's text; what it is, is named by `guessed_content_type`.
#[verifier::external_body]
fn content_type_for(path: &str) -> (t: String)
    ensures
        t@ == guessed_content_type(path@),
{
    mime_guess::from_path(path).first_or_octet_stream().to_string()
}

/// The path without its leading slashes.
pub open spec fn trim_slashes(p: Seq<char>) -> Seq<char>
    decreases p.len(),
{
    if p.len() > 0 && p[0] == '/' {
        trim_slashes(p.drop_first())
    } else {
        p
    }
}

/// The asset path that a request path names: the request path without its
/// leading slashes.
pub fn asset_path(uri_path: &str) -> (p: &str)
    ensures
        p@ == trim_slashes(uri_path@),
{
    let n: usize = uri_path.unicode_len();
    let mut k: usize = 0;
    assert(uri_path@.skip(0) =~= uri_path@);
    while k < n && uri_path.get_char(k) == '/'
        invariant
            n == uri_path@.len(),
            k <= n,
            trim_slashes(uri_path@) == trim_slashes(uri_path@.skip(k as int)),
        decreases n - k,
    {
        assert(uri_path@.skip(k as int).drop_first() =~= uri_path@.skip(k + 1));
        k = k + 1;
    }
    assert(k == n ==> uri_path@.skip(k as int) =~= Seq::<char>::empty());
    uri_path.substring_char(k, n)
}

/// How a file is served: the embedded file's path and the two headers.
pub struct StaticReply {
    pub file: String,
    pub content_type: String,
    pub cache_control: String,
}

/// The entry page.
pub open spec fn index_path() -> Seq<char> {
    "index.html"@
}

/// Caching of the entry page: always revalidated.
pub open spec fn no_cache() -> Seq<char> {
    "public, max-age=0, must-revalidate"@
}

/// Caching of the build's hashed bundles: kept for a year.
pub open spec fn immutable_cache() -> Seq<char> {
    "public, max-age=31536000, immutable"@
}

/// Caching of other files: an hour, then revalidated.
pub open spec fn hour_cache() -> Seq<char> {
    "public, max-age=3600, must-revalidate"@
}

/// Whether `p` begins with `prefix`.
pub open spec fn has_prefix(p: Seq<char>, prefix: Seq<char>) -> bool {
    prefix.len() <= p.len() && p.take(prefix.len() as int) == prefix
}

/// The reply to asset path `path`, given whether the entry page and the file
/// at `path` exist: the root or `index.html` is the entry page; an existing
/// file is served with its guessed type, cached for a year under `_app/` and
/// `assets/`; a path without a dot is a client-side route and gets the entry
/// page; anything else is not found (`None`).
pub open spec fn static_reply_of(path: Seq<char>, index_exists: bool, file_exists: bool) -> Option<(Seq<char>, Seq<char>, Seq<char>)> {
    if (path.len() == 0 || path == index_path()) && index_exists {
        Some((index_path(), "text/html"@, no_cache()))
    } else if file_exists {
        let cache = if has_prefix(path, "_app/"@) || has_prefix(path, "assets/"@) {
            immutable_cache()
        } else {
            hour_cache()
        };
        Some((path, guessed_content_type(path), cache))
    } else if !path.contains('.') && index_exists {
        Some((index_path(), "text/html"@, no_cache()))
    } else {
        None
    }
}

fn index_reply() -> (r: StaticReply)
    ensures
        r.file@ == index_path(),
        r.content_type@ == "text/html"@,
        r.cache_control@ == no_cache(),
{
    StaticReply {
        file: String::from_str("index.html"),
        content_type: String::from_str("text/html"),
        cache_control: String::from_str("public, max-age=0, must-revalidate"),
    }
}

/// Decide how to answer a request for the asset at `path`; `index_exists` and
/// `file_exists` say whether the entry page and the file at `path` are among
/// the embedded files.
pub fn static_reply(path: &str, index_exists: bool, file_exists: bool) -> (r: Option<StaticReply>)
    ensures
        match (r, static_reply_of(path@, index_exists, file_exists)) {
            (None, None) => true,
            (Some(reply), Some((file, content_type, cache))) => reply.file@ == file
                && reply.content_type@ == content_type && reply.cache_control@ == cache,
            _ => false,
        },
{
    if (path.unicode_len() == 0 || same_text(path, "index.html")) && index_exists {
        return Some(index_reply());
    }
    if file_exists {
        let content_type = content_type_for(path);
        let cache_control = if starts_with_text(path, "_app/") || starts_with_text(path, "assets/") {
            String::from_str("public, max-age=31536000, immutable")
        } else {
            String::from_str("public, max-age=3600, must-revalidate")
        };
        return Some(StaticReply { file: String::from_str(path), content_type, cache_control });
    }
    if !contains_char(path, '.') && index_exists {
        return Some(index_reply());
    }
    None
}

} // verus!
