//! Finding programs on the search path.

use vstd::prelude::*;

verus! {

/// `pathsearch::find_executable_in_path`: the path of the first executable
/// file of that name in the directories of `PATH`, if there is one. The answer
/// depends on the environment and on the file system at the moment of the
/// call, so nothing is claimed of it.
#[verifier::external_body]
pub(crate) fn find_executable(name: &str) -> (found: Option<String>) {
    pathsearch::find_executable_in_path(name).map(|p| p.to_string_lossy().into_owned())
}

} // verus!
