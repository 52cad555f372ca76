//! Where uploaded archives and rendered readmes are stored, and the URLs under
//! which they are served.

use crate::text::{chars_of, push_char, starts_with, string_from_chars};
use vstd::prelude::*;
use vstd::string::StringExecFns;

verus! {

/// The storage path of a version's archive: `crates/{name}/{name}-{version}.crate`.
pub fn crate_file_path(name: &str, version: &str) -> (r: String)
    ensures
        r@ == "crates/"@ + name@ + "/"@ + name@ + "-"@ + version@ + ".crate"@,
{
    String::from_str("crates/").concat(name).concat("/").concat(name).concat("-").concat(version).concat(".crate")
}

/// The storage path of a version's rendered readme: `readmes/{name}/{name}-{version}.html`.
pub fn readme_path(name: &str, version: &str) -> (r: String)
    ensures
        r@ == "readmes/"@ + name@ + "/"@ + name@ + "-"@ + version@ + ".html"@,
{
    String::from_str("readmes/").concat(name).concat("/").concat(name).concat("-").concat(version).concat(".html")
}

/// The URL of a storage path: under the CDN prefix when there is one (with
/// `https://` added unless it is there), else relative to the site root.
pub open spec fn cdn_url(cdn_prefix: Option<Seq<char>>, path: Seq<char>) -> Seq<char> {
    match cdn_prefix {
        Some(p) => if p.len() >= 8 && p.take(8) == "https://"@ {
            p + "/"@ + path
        } else {
            "https://"@ + p + "/"@ + path
        },
        None => "/"@ + path,
    }
}

/// The view of an optional string.
pub open spec fn opt_view(s: Option<String>) -> Option<Seq<char>> {
    match s {
        Some(v) => Some(v@),
        None => None,
    }
}

/// The URL of the storage path `path`.
pub fn apply_cdn_prefix(cdn_prefix: &Option<String>, path: &str) -> (r: String)
    ensures
        r@ == cdn_url(opt_view(*cdn_prefix), path@),
{
    match cdn_prefix {
        Some(prefix) => {
            let scheme = chars_of("https://");
            let cs = chars_of(prefix.as_str());
            proof {
                reveal_strlit("https://");
            }
            if starts_with(&cs, &scheme) {
                prefix.clone().concat("/").concat(path)
            } else {
                String::from_str("https://").concat(prefix.as_str()).concat("/").concat(path)
            }
        },
        None => String::from_str("/").concat(path),
    }
}

/// `s` with every `+` written as `%2B`.
pub open spec fn escape_plus(s: Seq<char>) -> Seq<char>
    decreases s.len(),
{
    if s.len() == 0 {
        Seq::empty()
    } else if s.last() == '+' {
        escape_plus(s.drop_last()) + seq!['%', '2', 'B']
    } else {
        escape_plus(s.drop_last()).push(s.last())
    }
}

/// `s` with every `+` written as `%2B`, as URLs need it.
pub fn escape_plus_signs(s: &str) -> (r: String)
    ensures
        r@ == escape_plus(s@),
{
    let cs = chars_of(s);
    let empty: Vec<char> = Vec::new();
    let mut out = string_from_chars(&empty, 0, 0);
    let mut i: usize = 0;
    while i < cs.len()
        invariant
            cs@ == s@,
            i <= cs@.len(),
            out@ == escape_plus(cs@.take(i as int)),
        decreases cs.len() - i,
    {
        assert(cs@.take(i + 1).drop_last() =~= cs@.take(i as int));
        assert(cs@.take(i + 1).last() == cs@[i as int]);
        if cs[i] == '+' {
            push_char(&mut out, '%');
            push_char(&mut out, '2');
            push_char(&mut out, 'B');
            assert(out@ =~= escape_plus(cs@.take(i as int)) + seq!['%', '2', 'B']);
        } else {
            push_char(&mut out, cs[i]);
        }
        i += 1;
    }
    assert(cs@.take(cs@.len() as int) =~= cs@);
    out
}

/// The URL of a version's archive, with `+` escaped. The file itself is not looked for.
pub fn crate_location(cdn_prefix: &Option<String>, name: &str, version: &str) -> (r: String)
    ensures
        r@ == escape_plus(cdn_url(opt_view(*cdn_prefix), "crates/"@ + name@ + "/"@ + name@ + "-"@ + version@ + ".crate"@)),
{
    let path = crate_file_path(name, version);
    let url = apply_cdn_prefix(cdn_prefix, path.as_str());
    escape_plus_signs(url.as_str())
}

/// The URL of a version's rendered readme, with `+` escaped. The file itself is not looked for.
pub fn readme_location(cdn_prefix: &Option<String>, name: &str, version: &str) -> (r: String)
    ensures
        r@ == escape_plus(cdn_url(opt_view(*cdn_prefix), "readmes/"@ + name@ + "/"@ + name@ + "-"@ + version@ + ".html"@)),
{
    let path = readme_path(name, version);
    let url = apply_cdn_prefix(cdn_prefix, path.as_str());
    escape_plus_signs(url.as_str())
}

} // verus!
