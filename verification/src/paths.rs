//! File-system paths, which the library carries and never looks inside.

use vstd::prelude::*;
use std::path::PathBuf;

verus! {

/// A path of the file system, opaque to the library.
#[verifier::external_type_specification]
#[verifier::external_body]
pub struct ExPathBuf(PathBuf);

/// The bytes that a path is made of, as `OsStr::as_encoded_bytes` gives
/// them for the path's text.
pub uninterp spec fn path_bytes(path: PathBuf) -> Seq<u8>;

/// `PathBuf::new` makes an empty path: one of no bytes.
pub assume_specification[ PathBuf::new ]() -> (p: PathBuf)
    ensures
        path_bytes(p) == Seq::<u8>::empty(),
;

/// Cloning a path gives an equal path.
pub assume_specification[ <PathBuf as Clone>::clone ](p: &PathBuf) -> (r: PathBuf)
    ensures
        r == *p,
;

} // verus!
