//! Path operations: the component-aware ones come from `camino`, the
//! separator normalisation for archive entry names is our own.

use vstd::prelude::*;
use vstd::string::*;

verus! {

/// The final component of a path, as `camino` determines it.
pub uninterp spec fn file_name_of(path: Seq<char>) -> Option<Seq<char>>;

/// The parent of a path, as `camino` determines it.
pub uninterp spec fn parent_of(path: Seq<char>) -> Option<Seq<char>>;

/// What remains of `path` once the leading components `base` are removed,
/// as `camino` determines it.
pub uninterp spec fn strip_prefix_of(path: Seq<char>, base: Seq<char>) -> Option<Seq<char>>;

/// `path` adjoined to `base`, as `camino` determines it.
pub uninterp spec fn joined(base: Seq<char>, path: Seq<char>) -> Seq<char>;

/// Relies on `camino::Utf8Path::file_name`: the final component, if any.
#[verifier::external_body]
pub(crate) fn file_name(path: &str) -> (r: Option<String>)
    ensures
        r matches Some(n) ==> file_name_of(path@) == Some(n@),
        r is None ==> file_name_of(path@) is None,
{
    camino::Utf8Path::new(path).file_name().map(|n| n.to_owned())
}

/// Relies on `camino::Utf8Path::parent`: the path without its final component, if any.
#[verifier::external_body]
pub(crate) fn parent(path: &str) -> (r: Option<String>)
    ensures
        r matches Some(p) ==> parent_of(path@) == Some(p@),
        r is None ==> parent_of(path@) is None,
{
    camino::Utf8Path::new(path).parent().map(|p| p.as_str().to_owned())
}

/// Relies on `camino::Utf8Path::strip_prefix`: `path` relative to `base`,
/// if `base` is made of leading components of `path`.
#[verifier::external_body]
pub(crate) fn strip_prefix(path: &str, base: &str) -> (r: Option<String>)
    ensures
        r matches Some(p) ==> strip_prefix_of(path@, base@) == Some(p@),
        r is None ==> strip_prefix_of(path@, base@) is None,
{
    camino::Utf8Path::new(path).strip_prefix(base).ok().map(|p| p.as_str().to_owned())
}

/// Relies on `camino::Utf8Path::join`: `path` adjoined to `base`.
#[verifier::external_body]
pub(crate) fn join(base: &str, path: &str) -> (r: String)
    ensures
        r@ == joined(base@, path@),
{
    camino::Utf8Path::new(base).join(path).into_string()
}

/// `path` with every occurrence of the host's `separator` written as `/`.
pub open spec fn forward_slashed(path: Seq<char>, separator: char) -> Seq<char> {
    Seq::new(path.len(), |i: int| if path[i] == separator { '/' } else { path[i] })
}

/// Whether `path` is free of the host separator, unless that separator is `/`.
pub open spec fn is_portable(path: Seq<char>, separator: char) -> bool {
    separator != '/' ==> !path.contains(separator)
}

/// Rewrites the host's path `separator` into `/`, so that entry names read
/// the same whichever host wrote the archive.
pub fn to_forward_slash(path: &str, separator: char) -> (r: String)
    ensures
        r@ == forward_slashed(path@, separator),
        is_portable(r@, separator),
{
    let n = path.unicode_len();
    let mut out = String::from_str("");
    proof {
        reveal_strlit("");
        reveal_strlit("/");
        assert("/"@ =~= seq!['/']);
    }
    let mut i: usize = 0;
    while i < n
        invariant
            n == path@.len(),
            "/"@ == seq!['/'],
            i <= n,
            out@ == forward_slashed(path@, separator).take(i as int),
        decreases n - i,
    {
        let c = path.get_char(i);
        let ghost before = out@;
        if c == separator {
            out.append("/");
            assert(out@ =~= before.push('/'));
        } else {
            out.append(path.substring_char(i, i + 1));
            assert(out@ =~= before.push(c));
        }
        assert(out@ =~= forward_slashed(path@, separator).take(i + 1));
        i = i + 1;
    }
    assert(out@ =~= forward_slashed(path@, separator));
    proof {
        lemma_forward_slashed_is_portable(path@, separator);
    }
    out
}

pub proof fn lemma_forward_slashed_is_portable(path: Seq<char>, separator: char)
    ensures
        is_portable(forward_slashed(path, separator), separator),
{
    let f = forward_slashed(path, separator);
    if separator != '/' {
        assert forall|i: int| 0 <= i < f.len() implies f[i] != separator by {}
    }
}

} // verus!
