//! Serving the embedded front end: which file a path names and the headers it
//! is served with.

use vstd::prelude::*;
use crate::text::{chars_of, contains_char, ends_with, starts_with, string_of_range, to_string};

verus! {

/// `s` without its leading slashes.
pub open spec fn strip_slashes(s: Seq<char>) -> Seq<char>
    decreases s.len(),
{
    if s.len() > 0 && s[0] == '/' {
        strip_slashes(s.drop_first())
    } else {
        s
    }
}

/// The asset a request path names; the bare root names `index.html`.
pub open spec fn asset_name(path: Seq<char>) -> Seq<char> {
    if strip_slashes(path).len() == 0 {
        "index.html"@
    } else {
        strip_slashes(path)
    }
}

/// Assets under a build directory, and files with an extension other than `.html`,
/// are fingerprinted and may be cached for good.
pub open spec fn cached_forever(path: Seq<char>) -> bool {
    "_app/"@.is_prefix_of(path) || "_astro/"@.is_prefix_of(path) || (path.contains('.') && !(
    ".html"@.len() <= path.len() && path.subrange(path.len() - ".html"@.len(), path.len() as int)
        == ".html"@))
}

/// The content type that `mime_guess` gives a path, by its extension
/// (`application/octet-stream` when it knows none).
pub uninterp spec fn guessed_content_type(path: Seq<char>) -> Seq<char>;

/// `mime_guess::from_path(path).first_or_octet_stream()`, as text. The contract
/// claims that the result depends on the path alone, which the crate's static
/// extension table gives; the table itself is not stated.
#[verifier::external_body]
fn content_type_of(path: &str) -> (r: String)
    ensures
        r@ == guessed_content_type(path@),
{
    mime_guess::from_path(path).first_or_octet_stream().as_ref().to_string()
}

proof fn lemma_strip_slashes(s: Seq<char>, i: int)
    requires
        0 <= i <= s.len(),
        forall|k: int| 0 <= k < i ==> s[k] == '/',
        i == s.len() || s[i] != '/',
    ensures
        strip_slashes(s) == s.subrange(i, s.len() as int),
    decreases i,
{
    if i == 0 {
        assert(s.subrange(0, s.len() as int) == s);
    } else {
        let t = s.drop_first();
        assert forall|k: int| 0 <= k < i - 1 implies t[k] == '/' by {
            assert(t[k] == s[k + 1]);
        }
        if i < s.len() {
            assert(t[i - 1] == s[i]);
        }
        lemma_strip_slashes(t, i - 1);
        assert(t.subrange(i - 1, t.len() as int) == s.subrange(i, s.len() as int));
    }
}

pub fn asset_path(request_path: &str) -> (r: String)
    ensures
        r@ == asset_name(request_path@),
{
    let v = chars_of(request_path);
    let mut i: usize = 0;
    while i < v.len() && v[i] == '/'
        invariant
            i <= v@.len(),
            v@ == request_path@,
            forall|k: int| 0 <= k < i ==> v@[k] == '/',
        decreases v@.len() - i,
    {
        i = i + 1;
    }
    proof {
        lemma_strip_slashes(v@, i as int);
    }
    if i == v.len() {
        to_string("index.html")
    } else {
        string_of_range(&v, i, v.len())
    }
}

pub fn is_cached_forever(path: &str) -> (r: bool)
    ensures
        r == cached_forever(path@),
{
    starts_with(path, "_app/") || starts_with(path, "_astro/") || (contains_char(path, '.')
        && !ends_with(path, ".html"))
}

/// The headers an asset is served with.
pub struct AssetHeaders {
    pub content_type: String,
    pub cache_forever: bool,
}

/// The headers of the asset `path`, given the content type guessed for it.
pub fn asset_headers_with(path: &str, content_type: String) -> (h: AssetHeaders)
    ensures
        h.content_type@ == content_type@,
        h.cache_forever == cached_forever(path@),
{
    AssetHeaders { content_type, cache_forever: is_cached_forever(path) }
}

/// The headers of the asset `path`.
pub fn asset_headers(path: &str) -> (h: AssetHeaders)
    ensures
        h.content_type@ == guessed_content_type(path@),
        h.cache_forever == cached_forever(path@),
{
    let content_type = content_type_of(path);
    asset_headers_with(path, content_type)
}

} // verus!
