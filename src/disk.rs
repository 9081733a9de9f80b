//! Probes of the file system. What they answer depends on the disk, so their
//! contracts state nothing of the result.

use vstd::prelude::*;

verus! {

/// Relies on `std::path::Path::exists`: whether anything is found at `path`.
#[verifier::external_body]
pub(crate) fn path_exists(path: &str) -> bool {
    std::path::Path::new(path).exists()
}

/// Relies on `std::path::Path::is_dir`: whether `path` is a directory.
#[verifier::external_body]
pub(crate) fn path_is_dir(path: &str) -> bool {
    std::path::Path::new(path).is_dir()
}

} // verus!
