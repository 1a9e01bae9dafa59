//! Joining a configured base URL with a request path.

use vstd::prelude::*;
use vstd::string::*;

verus! {

/// Whether `s` begins with a slash.
pub open spec fn starts_with_slash(s: Seq<char>) -> bool {
    s.len() > 0 && s[0] == '/'
}

/// Whether `s` ends with a slash.
pub open spec fn ends_with_slash(s: Seq<char>) -> bool {
    s.len() > 0 && s.last() == '/'
}

/// `path` with at most one leading and at most one trailing slash removed.
pub open spec fn stripped_path(path: Seq<char>) -> Seq<char> {
    let a = if starts_with_slash(path) {
        path.drop_first()
    } else {
        path
    };
    if ends_with_slash(a) {
        a.drop_last()
    } else {
        a
    }
}

/// The URL a request to `path` goes to: `path` itself without a base URL,
/// otherwise the base, a slash, and the path stripped of one slash at each end.
pub open spec fn resolved(base: Option<Seq<char>>, path: Seq<char>) -> Seq<char> {
    match base {
        None => path,
        Some(b) => b + seq!['/'] + stripped_path(path),
    }
}

/// Removes one leading and one trailing slash from `url`, where present.
pub fn parse_url(url: &str) -> (r: String)
    ensures
        r@ == stripped_path(url@),
{
    let n = url.unicode_len();
    let mut from: usize = 0;
    if n > 0 && url.get_char(0) == '/' {
        from = 1;
    }
    let mut to: usize = n;
    if to > from && url.get_char(to - 1) == '/' {
        to = to - 1;
    }
    let part = url.substring_char(from, to);
    proof {
        let a = if starts_with_slash(url@) {
            url@.drop_first()
        } else {
            url@
        };
        assert(a =~= url@.subrange(from as int, n as int));
        if ends_with_slash(a) {
            assert(a.drop_last() =~= part@);
        } else {
            assert(a =~= part@);
        }
    }
    String::from_str(part)
}

/// The full URL for a request to `path`, given the optional base URL.
pub fn resolve(base_url: Option<&str>, path: &str) -> (r: String)
    ensures
        r@ == resolved(
            match base_url {
                Some(b) => Some(b@),
                None => None,
            },
            path@,
        ),
{
    match base_url {
        None => String::from_str(path),
        Some(b) => {
            let endpoint = parse_url(path);
            let mut full = String::from_str(b);
            let sep = "/";
            proof {
                reveal_strlit("/");
            }
            full.append(sep);
            full.append(endpoint.as_str());
            assert(full@ =~= b@ + seq!['/'] + stripped_path(path@));
            full
        }
    }
}

/// Without a base URL a path is used as it stands.
pub proof fn lemma_resolve_without_base(path: Seq<char>)
    ensures
        resolved(None, path) == path,
{
}

/// Under a base URL, wrapping a path that neither begins nor ends with a
/// slash in one more slash at each end leads to the same URL.
pub proof fn lemma_resolve_ignores_wrapping_slashes(base: Seq<char>, path: Seq<char>)
    requires
        !starts_with_slash(path),
        !ends_with_slash(path),
    ensures
        resolved(Some(base), path) == resolved(Some(base), seq!['/'] + path + seq!['/']),
{
    let w = seq!['/'] + path + seq!['/'];
    assert(w.drop_first() =~= path + seq!['/']);
    assert((path + seq!['/']).drop_last() =~= path);
}

} // verus!
