//! Path operations of `std::path` that the listing relies on, with names
//! for their results.

use vstd::prelude::*;

verus! {

/// A single path component naming a file: non-empty, without `/`, and
/// neither `.` nor `..`.
pub open spec fn plain_name(s: Seq<char>) -> bool {
    s.len() > 0 && !s.contains('/') && s != "."@ && s != ".."@
}

/// Index of the last `.` in `s`, -1 when there is none.
pub open spec fn last_dot(s: Seq<char>) -> int
    decreases s.len(),
{
    if s.len() == 0 {
        -1
    } else if s.last() == '.' {
        s.len() - 1
    } else {
        last_dot(s.drop_last())
    }
}

/// The extension of a plain file name, as `Path::extension` documents it:
/// none without an embedded `.` or when the name begins with its only `.`;
/// otherwise the part after the final `.`.
pub open spec fn plain_extension(s: Seq<char>) -> Option<Seq<char>> {
    if last_dot(s) <= 0 {
        None
    } else {
        Some(s.subrange(last_dot(s) + 1, s.len() as int))
    }
}

/// `Path::new(name).extension()` read as a string: the part of the final
/// component after its last `.`, when that dot is not the first character
/// of the component (it may be the last: `foo.` has the empty extension).
pub uninterp spec fn path_extension_of(name: Seq<char>) -> Option<Seq<char>>;

/// The components of a path (`Path::components`), each read as a string
/// (the root directory reads as `/`).
pub uninterp spec fn path_components_of(p: Seq<char>) -> Seq<Seq<char>>;

/// `std::path::Path::extension`: its result is named; for a plain file
/// name it is what the documentation gives.
#[verifier::external_body]
pub(crate) fn path_extension(name: &str) -> (r: Option<String>)
    ensures
        r matches Some(e) ==> path_extension_of(name@) == Some(e@),
        r is None ==> path_extension_of(name@) is None,
        plain_name(name@) ==> match r {
            Some(e) => plain_extension(name@) == Some(e@),
            None => plain_extension(name@) is None,
        },
{
    std::path::Path::new(name).extension().map(|e| e.to_string_lossy().into_owned())
}

/// `std::path::Path::components`, each component converted to a string:
/// the result is named; a plain file name is its one (normal) component;
/// and a non-empty path joined by `/` to a plain name has the components
/// of that path followed by the name (the documentation: repeated and
/// trailing separators are ignored, `.` is dropped except at the start,
/// nothing else is normalized).
#[verifier::external_body]
pub(crate) fn path_components(p: &str) -> (r: Vec<String>)
    ensures
        r@.map_values(|c: String| c@) == path_components_of(p@),
        plain_name(p@) ==> r@.map_values(|c: String| c@) == seq![p@],
        forall|q: Seq<char>, n: Seq<char>|
            q.len() > 0 && plain_name(n) && p@ == q + seq!['/'] + n ==> r@.map_values(
                |c: String| c@,
            ) == #[trigger] path_components_of(q).push(n),
{
    std::path::Path::new(p).components().map(|c| c.as_os_str().to_string_lossy().into_owned()).collect()
}

} // verus!
