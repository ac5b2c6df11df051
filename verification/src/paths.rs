//! Path queries on `/`-separated paths held as text, answered by the
//! standard library's `Path`.
use vstd::prelude::*;

verus! {

/// The final component of a path, when it is a normal component, as
/// `Path::file_name` gives it.
pub uninterp spec fn std_file_name(path: Seq<char>) -> Option<Seq<char>>;

/// Whether `base` is a component-wise prefix of `path`, as
/// `Path::starts_with` decides it.
pub uninterp spec fn std_path_starts_with(path: Seq<char>, base: Seq<char>) -> bool;

/// `Path::file_name` of `path`, as text. The contract names the result:
/// it is the standard library's component parsing.
#[verifier::external_body]
pub(crate) fn file_name(path: &str) -> (r: Option<String>)
    ensures
        match r {
            Some(n) => std_file_name(path@) == Some(n@),
            None => std_file_name(path@) is None,
        },
{
    std::path::Path::new(path).file_name().map(|n| n.to_string_lossy().into_owned())
}

/// `Path::starts_with`: whether `base` is a component-wise prefix of
/// `path`. The contract names the result.
#[verifier::external_body]
pub(crate) fn path_starts_with(path: &str, base: &str) -> (b: bool)
    ensures
        b == std_path_starts_with(path@, base@),
{
    std::path::Path::new(path).starts_with(base)
}


/// `base` with `part` appended as `Path::join` does it (a separator in
/// between where needed; an absolute `part` replaces `base`).
pub uninterp spec fn std_path_join(base: Seq<char>, part: Seq<char>) -> Seq<char>;

/// The path without its final component, as `Path::parent` gives it.
pub uninterp spec fn std_path_parent(path: Seq<char>) -> Option<Seq<char>>;

/// `Path::join`, as text. The contract names the result.
#[verifier::external_body]
pub(crate) fn path_join(base: &str, part: &str) -> (r: String)
    ensures
        r@ == std_path_join(base@, part@),
{
    std::path::Path::new(base).join(part).to_string_lossy().into_owned()
}

/// `Path::parent`, as text. The contract names the result and states what
/// the documentation says of it: the parent is the path without its final
/// component, so it is shorter than the path.
#[verifier::external_body]
pub(crate) fn path_parent(path: &str) -> (r: Option<String>)
    ensures
        match r {
            Some(p) => std_path_parent(path@) == Some(p@) && p@.len() < path@.len(),
            None => std_path_parent(path@) is None,
        },
{
    std::path::Path::new(path).parent().map(|p| p.to_string_lossy().into_owned())
}


/// The components of a path, as `Path::components` gives them: each
/// normal component by its name, every other kind (a root, a prefix, `.`
/// or `..`) as `None`.
pub uninterp spec fn std_path_parts(path: Seq<char>) -> Seq<Option<Seq<char>>>;

/// The path relative to `base`, as `Path::strip_prefix` gives it, or
/// `None` where `base` is not a component-wise prefix.
pub uninterp spec fn std_strip_prefix(path: Seq<char>, base: Seq<char>) -> Option<Seq<char>>;

/// A component of a path: a normal component by its name, or another
/// kind.
pub enum PathPart {
    Normal(String),
    Other,
}

/// The view of a component.
pub open spec fn part_view(p: PathPart) -> Option<Seq<char>> {
    match p {
        PathPart::Normal(n) => Some(n@),
        PathPart::Other => None,
    }
}

/// The components of `path` (`Path::components`), each normal one by its
/// name as text. The contract names the result.
#[verifier::external_body]
pub(crate) fn path_parts(path: &str) -> (r: Vec<PathPart>)
    ensures
        r@.map_values(|p: PathPart| part_view(p)) == std_path_parts(path@),
{
    std::path::Path::new(path)
        .components()
        .map(|c| match c {
            std::path::Component::Prefix(_) => PathPart::Other,
            std::path::Component::RootDir => PathPart::Other,
            std::path::Component::CurDir => PathPart::Other,
            std::path::Component::ParentDir => PathPart::Other,
            std::path::Component::Normal(n) => PathPart::Normal(n.to_string_lossy().into_owned()),
        })
        .collect()
}

/// `Path::strip_prefix`, as text. The contract names the result.
#[verifier::external_body]
pub(crate) fn strip_prefix(path: &str, base: &str) -> (r: Option<String>)
    ensures
        match r {
            Some(p) => std_strip_prefix(path@, base@) == Some(p@),
            None => std_strip_prefix(path@, base@) is None,
        },
{
    std::path::Path::new(path).strip_prefix(base).ok().map(|p| p.to_string_lossy().into_owned())
}

} // verus!
