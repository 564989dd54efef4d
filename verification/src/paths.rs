//! Request targets and paths as character sequences.

use vstd::prelude::*;
use vstd::string::*;

verus! {

/// The path component that `http::Uri` finds in a request target, or `None`
/// where it rejects the target.
pub uninterp spec fn uri_path(target: Seq<char>) -> Option<Seq<char>>;

/// Parses `target` with `http::Uri`'s `FromStr` and reads `Uri::path` of the
/// result. Trusted: the result is what the `http` crate computes from the
/// target's text, which [`uri_path`] names.
#[verifier::external_body]
pub(crate) fn parse_path(target: &str) -> (r: Option<String>)
    ensures
        match r {
            Some(p) => uri_path(target@) == Some(p@),
            None => uri_path(target@) is None,
        },
{
    match target.parse::<http::Uri>() {
        Ok(uri) => Some(uri.path().to_string()),
        Err(_) => None,
    }
}

/// What is left of `path` inside a sub-tree mounted at `prefix`.
///
/// A prefix covers itself, where the sub-tree sees `/`, and every path that
/// continues it with a `/`, where the sub-tree sees the rest from that `/`
/// on. Any other path lies outside the mount: `/api` covers `/api` and
/// `/api/users`, not `/apis`. A prefix is written without a closing `/`; the
/// empty prefix is the root, under which every path that begins with `/` is
/// seen as it is.
pub open spec fn strip_prefix_spec(prefix: Seq<char>, path: Seq<char>) -> Option<Seq<char>> {
    if path == prefix {
        Some(seq!['/'])
    } else if prefix.len() < path.len() && path.subrange(0, prefix.len() as int) == prefix
        && path[prefix.len() as int] == '/' {
        Some(path.subrange(prefix.len() as int, path.len() as int))
    } else {
        None
    }
}

/// Computes [`strip_prefix_spec`].
pub fn strip_prefix(prefix: &str, path: &str) -> (r: Option<String>)
    ensures
        match r {
            Some(rest) => strip_prefix_spec(prefix@, path@) == Some(rest@),
            None => strip_prefix_spec(prefix@, path@) is None,
        },
{
    let n: usize = prefix.unicode_len();
    let m: usize = path.unicode_len();
    if m < n {
        return None;
    }
    let mut i: usize = 0;
    while i < n
        invariant
            n == prefix@.len(),
            m == path@.len(),
            n <= m,
            i <= n,
            forall|k: int| 0 <= k < i ==> prefix@[k] == path@[k],
        decreases n - i,
    {
        if prefix.get_char(i) != path.get_char(i) {
            assert(path@.subrange(0, n as int)[i as int] != prefix@[i as int]);
            return None;
        }
        i += 1;
    }
    assert(path@.subrange(0, n as int) =~= prefix@);
    if m == n {
        assert(path@ =~= path@.subrange(0, n as int));
        let root = "/".to_owned();
        proof {
            reveal_strlit("/");
            assert(root@ =~= seq!['/']);
        }
        Some(root)
    } else if path.get_char(n) == '/' {
        Some(path.substring_char(n, m).to_owned())
    } else {
        None
    }
}

} // verus!
