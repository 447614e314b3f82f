//! Where configuration lives on disk, and the two operations on directory
//! paths that the configuration model needs. Paths are held as text.

use vstd::prelude::*;

verus! {

/// The name of the configuration document in every directory that has one.
pub const CONFIG_FILENAME: &'static str = "docat.yml";

/// The directory under the home directory that holds the cached configuration.
pub const CACHE_DIRNAME: &'static str = ".docat";

/// The path that `std::path::PathBuf::push` makes of `base` when `name` is
/// pushed onto it.
pub uninterp spec fn joined_path(base: Seq<char>, name: Seq<char>) -> Seq<char>;

/// The path that `std::path::PathBuf::pop` leaves of `dir`.
pub uninterp spec fn parent_path(dir: Seq<char>) -> Seq<char>;

/// Calls `std::path::PathBuf::push` on a path made of `base`, with `name` as
/// its argument. Nothing is claimed of the result but that it is the path
/// which that call produces from these two texts.
#[verifier::external_body]
pub(crate) fn join_path(base: &str, name: &str) -> (r: String)
    ensures
        r@ == joined_path(base@, name@),
{
    let mut path = std::path::PathBuf::from(base);
    path.push(name);
    path.to_string_lossy().into_owned()
}

/// Calls `std::path::PathBuf::pop` on a path made of `dir`. Nothing is
/// claimed of the result but that it is the path which that call leaves.
#[verifier::external_body]
pub(crate) fn parent_of(dir: &str) -> (r: String)
    ensures
        r@ == parent_path(dir@),
{
    let mut path = std::path::PathBuf::from(dir);
    path.pop();
    path.to_string_lossy().into_owned()
}

/// The directory of the cached configuration, under the home directory.
pub fn cached_config_path(home: &str) -> (r: String)
    ensures
        r@ == joined_path(home@, CACHE_DIRNAME@),
{
    join_path(home, CACHE_DIRNAME)
}

/// The cached configuration document itself.
pub fn cached_config_file(home: &str) -> (r: String)
    ensures
        r@ == joined_path(joined_path(home@, CACHE_DIRNAME@), CONFIG_FILENAME@),
{
    let dir = cached_config_path(home);
    join_path(dir.as_str(), CONFIG_FILENAME)
}

} // verus!
