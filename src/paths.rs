//! Path text operations that rely on `std::path` and on the `path-clean` crate.
use vstd::prelude::*;

verus! {

/// The lexically cleaned form of a path.
pub uninterp spec fn cleaned_path(p: Seq<char>) -> Seq<char>;

/// The last normal component of a path, if it has one.
pub uninterp spec fn file_name_of(p: Seq<char>) -> Option<Seq<char>>;

/// Relies on `path_clean::clean`: the lexically cleaned path, which depends on the text alone.
#[verifier::external_body]
pub(crate) fn clean_path(p: &str) -> (r: String)
    ensures
        r@ == cleaned_path(p@),
{
    path_clean::clean(p).to_string_lossy().into_owned()
}

/// Relies on `std::path::Path::file_name`: the final component of a path when it is a normal
/// component, which depends on the text alone.
#[verifier::external_body]
pub(crate) fn file_name(p: &str) -> (r: Option<String>)
    ensures
        r is Some <==> file_name_of(p@) is Some,
        r matches Some(s) ==> file_name_of(p@) == Some(s@),
{
    match std::path::Path::new(p).file_name() {
        Some(s) => Some(s.to_string_lossy().into_owned()),
        None => None,
    }
}

/// An absolute path: one that starts at the root.
pub open spec fn is_absolute_spec(p: Seq<char>) -> bool {
    p.len() > 0 && p[0] == '/'
}

pub fn is_absolute(p: &str) -> (r: bool)
    ensures
        r == is_absolute_spec(p@),
{
    p.unicode_len() > 0 && p.get_char(0) == '/'
}

} // verus!
