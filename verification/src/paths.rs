//! Paths, held as strings. Joining, taking the parent and the final
//! component, and comparing are left to `std::path`, whose component rules
//! (separators, `.` components, roots) they follow. Those rules are the
//! build target's: Unix paths on Unix, Windows paths (drive prefixes, `\\`
//! as a separator) on Windows, so the names below are not spelled out.

use vstd::prelude::*;

verus! {

/// `Path::join` of `base` and `rest`, rendered as a string.
pub uninterp spec fn joined(base: Seq<char>, rest: Seq<char>) -> Seq<char>;

/// `Path::parent` of `p`, rendered as a string.
pub uninterp spec fn parent_of(p: Seq<char>) -> Option<Seq<char>>;

/// `Path::file_name` of `p`, rendered as a string.
pub uninterp spec fn file_name_of(p: Seq<char>) -> Option<Seq<char>>;

/// Whether `Path`'s equality (component-wise) holds between `a` and `b`.
pub uninterp spec fn same_path(a: Seq<char>, b: Seq<char>) -> bool;

/// Calls `Path::join`. Claimed: the result is `joined(base, rest)`, a
/// function of the two arguments alone. Both arguments are valid UTF-8, so
/// the lossy rendering loses nothing.
#[verifier::external_body]
pub(crate) fn path_join(base: &str, rest: &str) -> (r: String)
    ensures
        r@ == joined(base@, rest@),
{
    std::path::Path::new(base).join(rest).to_string_lossy().into_owned()
}

/// Calls `Path::parent`. Claimed: the result is `parent_of(p)`, a function
/// of `p` alone.
#[verifier::external_body]
pub(crate) fn path_parent(p: &str) -> (r: Option<String>)
    ensures
        match r {
            Some(s) => parent_of(p@) == Some(s@),
            None => parent_of(p@) is None,
        },
{
    std::path::Path::new(p).parent().map(|q| q.to_string_lossy().into_owned())
}

/// Calls `Path::file_name`. Claimed: the result is `file_name_of(p)`, a
/// function of `p` alone.
#[verifier::external_body]
pub(crate) fn path_file_name(p: &str) -> (r: Option<String>)
    ensures
        match r {
            Some(s) => file_name_of(p@) == Some(s@),
            None => file_name_of(p@) is None,
        },
{
    std::path::Path::new(p).file_name().map(|q| q.to_string_lossy().into_owned())
}

/// Calls `Path`'s `==`. Claimed: the result is `same_path(a, b)`, a function
/// of the two arguments alone, and a path equals itself (`Path` is `Eq`).
#[verifier::external_body]
pub(crate) fn paths_equal(a: &str, b: &str) -> (r: bool)
    ensures
        r == same_path(a@, b@),
        a@ == b@ ==> r,
{
    std::path::Path::new(a) == std::path::Path::new(b)
}

} // verus!
