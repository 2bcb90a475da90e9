//! File-system paths, held as strings. What a path's parts are is decided
//! by `std::path`; this module gives those decisions a name.

use vstd::prelude::*;

verus! {

/// The final component of `path`, as `std::path::Path::file_name` finds
/// it; none where the path ends in `..` or names a root.
pub uninterp spec fn file_name_of(path: Seq<char>) -> Option<Seq<char>>;

/// `base` extended by `leaf`, as `std::path::PathBuf::push` forms it.
pub uninterp spec fn joined(base: Seq<char>, leaf: Seq<char>) -> Seq<char>;

/// `std::path::Path::file_name` on a path held as a string. Trusted: the
/// final component depends on the path's characters alone.
#[verifier::external_body]
pub(crate) fn file_name(path: &str) -> (r: Option<String>)
    ensures
        match r {
            Some(name) => file_name_of(path@) == Some(name@),
            None => file_name_of(path@) is None,
        },
{
    match std::path::Path::new(path).file_name() {
        Some(name) => Some(name.to_string_lossy().into_owned()),
        None => None,
    }
}

/// `std::path::PathBuf::push` on paths held as strings. Trusted: the
/// extended path depends on the characters of the two alone.
#[verifier::external_body]
pub(crate) fn join(base: &str, leaf: &str) -> (r: String)
    ensures
        r@ == joined(base@, leaf@),
{
    let mut path = std::path::PathBuf::from(base);
    path.push(leaf);
    path.to_string_lossy().into_owned()
}

} // verus!
