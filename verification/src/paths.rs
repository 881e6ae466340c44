//! File-system paths, as the platform reads them.

use vstd::prelude::*;

verus! {

/// The path that results from joining `child` onto `base`.
pub uninterp spec fn joined_path(base: Seq<char>, child: Seq<char>) -> Seq<char>;

/// What is left of `path` once the leading `base` is taken off, if `base`
/// is a prefix of `path`, component by component.
pub uninterp spec fn path_below(path: Seq<char>, base: Seq<char>) -> Option<Seq<char>>;

/// Joins `child` onto `base` with `std::path::Path::join`. Trusted: the
/// result is a function of the two texts alone, which [`joined_path`] names.
#[verifier::external_body]
pub(crate) fn join_path(base: &str, child: &str) -> (joined: String)
    ensures
        joined@ == joined_path(base@, child@),
{
    std::path::Path::new(base).join(child).to_string_lossy().into_owned()
}

/// Takes `base` off the front of `path` with `std::path::Path::strip_prefix`.
/// Trusted: whether `base` is a prefix, and what is left, is a function of
/// the two texts alone, which [`path_below`] names.
#[verifier::external_body]
pub(crate) fn strip_path_prefix(path: &str, base: &str) -> (rest: Option<String>)
    ensures
        match rest {
            Some(r) => path_below(path@, base@) == Some(r@),
            None => path_below(path@, base@) is None,
        },
{
    match std::path::Path::new(path).strip_prefix(base) {
        Ok(rest) => Some(rest.to_string_lossy().into_owned()),
        Err(_) => None,
    }
}

} // verus!
