//! What the mode of a file tells.

use vstd::prelude::*;

verus! {

/// Whether a file of this mode may be executed by its owner, by its group or by
/// anyone.
pub open spec fn executable_mode(mode: u32) -> bool {
    mode & 0o111 != 0
}

/// Tells whether a file of this mode may be executed by anyone.
pub fn is_executable_mode(mode: u32) -> (r: bool)
    ensures
        r == executable_mode(mode),
{
    mode & 0o111 != 0
}

} // verus!
