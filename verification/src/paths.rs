//! Paths of the file system, held as text. The rules by which a path is
//! taken apart and put together are those of `std::path`.

use vstd::prelude::*;
use std::path::Path;

verus! {

/// The path `path` without its final component, if it has one: what
/// `Path::parent` gives for it.
pub uninterp spec fn path_parent(path: Seq<char>) -> Option<Seq<char>>;

/// The final component of the path `path`, if it has one: what
/// `Path::file_name` gives for it.
pub uninterp spec fn path_file_name(path: Seq<char>) -> Option<Seq<char>>;

/// The path `part` seen from the path `base`: what `Path::join` gives for
/// the two.
pub uninterp spec fn path_join(base: Seq<char>, part: Seq<char>) -> Seq<char>;

/// `Path::parent` of the standard library, on a path held as text. The
/// result depends on the text alone and is given the name `path_parent`.
#[verifier::external_body]
pub(crate) fn parent(path: &str) -> (r: Option<String>)
    ensures
        r is Some == path_parent(path@) is Some,
        r matches Some(p) ==> path_parent(path@) == Some(p@),
{
    match Path::new(path).parent() {
        Some(p) => Some(p.to_string_lossy().into_owned()),
        None => None,
    }
}

/// `Path::file_name` of the standard library, on a path held as text. The
/// result depends on the text alone and is given the name `path_file_name`.
#[verifier::external_body]
pub(crate) fn file_name(path: &str) -> (r: Option<String>)
    ensures
        r is Some == path_file_name(path@) is Some,
        r matches Some(n) ==> path_file_name(path@) == Some(n@),
{
    match Path::new(path).file_name() {
        Some(n) => Some(n.to_string_lossy().into_owned()),
        None => None,
    }
}

/// `Path::join` of the standard library, on paths held as text. The result
/// depends on the two texts alone and is given the name `path_join`.
#[verifier::external_body]
pub(crate) fn join(base: &str, part: &str) -> (r: String)
    ensures
        r@ == path_join(base@, part@),
{
    Path::new(base).join(part).to_string_lossy().into_owned()
}

} // verus!
