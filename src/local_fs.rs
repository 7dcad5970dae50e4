use vstd::prelude::*;

verus! {

/// Relies on `std::path::Path::is_dir`: whether a directory exists at the
/// path now. What is on disk can change at any time, so nothing is promised.
#[verifier::external_body]
fn path_is_dir(dir: &str) -> bool {
    std::path::Path::new(dir).is_dir()
}

/// Whether `dir` names an existing local directory.
pub fn is_directory(dir: &str) -> bool {
    path_is_dir(dir)
}

} // verus!
