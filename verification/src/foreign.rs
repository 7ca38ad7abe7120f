//! Types of std and of outside crates that the library's data carries
//! through without looking inside, and the std path operations on them.
use vstd::prelude::*;

verus! {

#[verifier::external_type_specification]
#[verifier::external_body]
pub struct ExJsonValue(serde_json::Value);

#[verifier::external_type_specification]
#[verifier::external_body]
pub struct ExPathBuf(std::path::PathBuf);

/// `PathBuf::clone`, which the derived `Clone` impls call; nothing is stated
/// of the copy.
pub assume_specification[ <std::path::PathBuf as Clone>::clone ](p: &std::path::PathBuf) -> (r:
    std::path::PathBuf);

/// `serde_json::Value::clone`, which the derived `Clone` impls call; nothing
/// is stated of the copy.
pub assume_specification[ <serde_json::Value as Clone>::clone ](v: &serde_json::Value) -> (r:
    serde_json::Value);

/// The path `PathBuf::from` makes of a text.
pub uninterp spec fn path_of(s: Seq<char>) -> std::path::PathBuf;

/// `PathBuf::from(s)`: the path named `path_of(s)`. What the path is inside
/// is std's own representation, and is not stated.
#[verifier::external_body]
pub(crate) fn path_from(s: &str) -> (r: std::path::PathBuf)
    ensures
        r == path_of(s@),
{
    std::path::PathBuf::from(s)
}

/// The path `Path::join` makes of a base path and a relative part.
pub uninterp spec fn path_joined(base: std::path::PathBuf, part: Seq<char>) -> std::path::PathBuf;

/// `base.join(part)`: the path named `path_joined(base, part)`.
#[verifier::external_body]
pub(crate) fn join_path(base: &std::path::PathBuf, part: &str) -> (r: std::path::PathBuf)
    ensures
        r == path_joined(*base, part@),
{
    base.join(part)
}

/// The text `Path::display` writes for a path.
pub uninterp spec fn path_display(p: std::path::PathBuf) -> Seq<char>;

/// `p.display().to_string()`: the text named `path_display(p)` (a path that
/// is not valid Unicode is written lossily, as `display` does).
#[verifier::external_body]
pub(crate) fn display_path(p: &std::path::PathBuf) -> (r: String)
    ensures
        r@ == path_display(*p),
{
    p.display().to_string()
}

} // verus!
