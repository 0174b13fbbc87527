//! Page rendering support: the values each page template receives, and the content type of
//! a static asset.
use vstd::prelude::*;
use crate::text::{owned, push_str, str_eq};

verus! {

/// The extension of a path as `rsplit('.').next()` gives it: the text after the last `.`, or
/// the whole path when it has none.
pub open spec fn extension(path: Seq<char>) -> Seq<char> {
    if exists|i: int| 0 <= i < path.len() && path[i] == '.' {
        let i = choose|i: int| 0 <= i < path.len() && path[i] == '.' && forall|j: int| i < j < path.len() ==> path[j] != '.';
        path.skip(i + 1)
    } else {
        path
    }
}

/// The content type served for an extension.
pub open spec fn content_type_of(ext: Seq<char>) -> Seq<char> {
    if ext == "js"@ { "application/javascript"@ }
    else if ext == "css"@ { "text/css"@ }
    else if ext == "html"@ { "text/html"@ }
    else if ext == "json"@ { "application/json"@ }
    else if ext == "png"@ { "image/png"@ }
    else if ext == "jpg"@ || ext == "jpeg"@ { "image/jpeg"@ }
    else if ext == "svg"@ { "image/svg+xml"@ }
    else if ext == "woff"@ || ext == "woff2"@ { "font/woff2"@ }
    else if ext == "map"@ { "application/json"@ }
    else { "application/octet-stream"@ }
}

fn path_extension(path: &str) -> (r: String)
    ensures
        r@ == extension(path@),
{
    let chars = crate::text::chars_of(path);
    let mut i: usize = chars.len();
    while i > 0 && chars[i - 1] != '.'
        invariant
            i <= chars.len(),
            chars@ == path@,
            forall|j: int| i <= j < chars.len() ==> chars@[j] != '.',
        decreases i,
    {
        i = i - 1;
    }
    let start: usize = i;
    let mut out = String::new();
    let mut k: usize = start;
    while k < chars.len()
        invariant
            start <= k <= chars.len(),
            out@ == chars@.subrange(start as int, k as int),
        decreases chars.len() - k,
    {
        crate::text::push_char(&mut out, chars[k]);
        assert(chars@.subrange(start as int, k + 1) =~= chars@.subrange(start as int, k as int).push(chars@[k as int]));
        k = k + 1;
    }
    proof {
        let p = path@;
        if start > 0 {
            let d = (start - 1) as int;
            assert(p[d] == '.');
            let c = choose|c: int| 0 <= c < p.len() && p[c] == '.' && forall|j: int| c < j < p.len() ==> p[j] != '.';
            assert(c == d) by {
                if c < d {
                    assert(p[d] != '.');
                } else if c > d {
                    assert(p[c] != '.');
                }
            }
            assert(out@ =~= p.skip(d + 1));
        } else {
            assert(!exists|c: int| 0 <= c < p.len() && p[c] == '.');
            assert(out@ =~= p);
        }
    }
    out
}

/// The content type of an asset, by the extension of its path.
pub fn get_content_type(path: &str) -> (r: &'static str)
    ensures
        r@ == content_type_of(extension(path@)),
{
    let ext = path_extension(path);
    let e = ext.as_str();
    if str_eq(e, "js") { "application/javascript" }
    else if str_eq(e, "css") { "text/css" }
    else if str_eq(e, "html") { "text/html" }
    else if str_eq(e, "json") { "application/json" }
    else if str_eq(e, "png") { "image/png" }
    else if str_eq(e, "jpg") || str_eq(e, "jpeg") { "image/jpeg" }
    else if str_eq(e, "svg") { "image/svg+xml" }
    else if str_eq(e, "woff") || str_eq(e, "woff2") { "font/woff2" }
    else if str_eq(e, "map") { "application/json" }
    else { "application/octet-stream" }
}

/// The values a page template receives, in insertion order: the panel base path, the host,
/// the page's title key, the panel version and the language.
pub open spec fn page_context_view(base_path: Seq<char>, host: Seq<char>, title: Seq<char>, version: Seq<char>, lang: Seq<char>) -> Seq<(Seq<char>, Seq<char>)> {
    seq![
        ("base_path"@, base_path + "panel/"@),
        ("host"@, host),
        ("title"@, title),
        ("cur_ver"@, version),
        ("lang"@, lang),
    ]
}

/// The values a page template receives (see `page_context_view`).
pub fn page_context(base_path: &str, host: &str, title: &str, version: &str, lang: &str) -> (r: Vec<(String, String)>)
    ensures
        crate::services::i18n::pairs_view(r@) == page_context_view(base_path@, host@, title@, version@, lang@),
{
    let mut base = String::new();
    push_str(&mut base, base_path);
    push_str(&mut base, "panel/");
    let mut r: Vec<(String, String)> = Vec::new();
    r.push((owned("base_path"), base));
    r.push((owned("host"), owned(host)));
    r.push((owned("title"), owned(title)));
    r.push((owned("cur_ver"), owned(version)));
    r.push((owned("lang"), owned(lang)));
    assert(crate::services::i18n::pairs_view(r@) =~= page_context_view(base_path@, host@, title@, version@, lang@));
    r
}

} // verus!
