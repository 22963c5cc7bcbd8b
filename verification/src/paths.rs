//! The few operations of `std::path` that the backup logic needs. Their
//! results follow the path syntax of the platform the crate is built for,
//! which is fixed for a given build; each result is named below and the
//! library's contracts speak of those names.
use vstd::prelude::*;
use std::path::Path;

verus! {

/// The final component of `path`, as `Path::file_name` gives it (lossily
/// decoded); `None` for a path that ends in `..` or has no component.
pub uninterp spec fn file_name_of(path: Seq<char>) -> Option<Seq<char>>;

/// `base` joined with `rel`, as `Path::join` forms it.
pub uninterp spec fn joined(base: Seq<char>, rel: Seq<char>) -> Seq<char>;

/// `path` with the leading components `base` removed, as `Path::strip_prefix`
/// gives it; `None` when `base` is not a prefix of `path`.
pub uninterp spec fn stripped(path: Seq<char>, base: Seq<char>) -> Option<Seq<char>>;

/// Whether two paths have the same components (`Path` equality).
pub uninterp spec fn same_path(a: Seq<char>, b: Seq<char>) -> bool;

/// An optional string taken by its characters.
pub open spec fn opt_view(o: Option<String>) -> Option<Seq<char>> {
    match o {
        Some(s) => Some(s@),
        None => None,
    }
}

/// Calls `Path::file_name`; the result is `file_name_of(path)`.
#[verifier::external_body]
pub(crate) fn file_name(path: &str) -> (r: Option<String>)
    ensures
        opt_view(r) == file_name_of(path@),
{
    Path::new(path).file_name().map(|n| n.to_string_lossy().into_owned())
}

/// Calls `Path::join`; the result is `joined(base, rel)`.
#[verifier::external_body]
pub(crate) fn join(base: &str, rel: &str) -> (r: String)
    ensures
        r@ == joined(base@, rel@),
{
    Path::new(base).join(rel).to_string_lossy().into_owned()
}

/// Calls `Path::strip_prefix`; the result is `stripped(path, base)`.
#[verifier::external_body]
pub(crate) fn strip_prefix(path: &str, base: &str) -> (r: Option<String>)
    ensures
        opt_view(r) == stripped(path@, base@),
{
    Path::new(path).strip_prefix(base).ok().map(|p| p.to_string_lossy().into_owned())
}

/// Calls `Path::eq`; the result is `same_path(a, b)`, and two equal strings
/// are always the same path.
#[verifier::external_body]
pub(crate) fn path_eq(a: &str, b: &str) -> (r: bool)
    ensures
        r == same_path(a@, b@),
        a@ == b@ ==> r,
{
    Path::new(a) == Path::new(b)
}

} // verus!
