//! Build identity of the library: the released tag, or the branch the build
//! came from while no tag names it.

use vstd::prelude::*;
use vstd::string::StrSliceExecFns;

verus! {

/// The release tag of this build; empty between releases.
pub const TAG_NAME: &'static str = "";

/// The branch this build came from.
pub const BRANCH_NAME: &'static str = "main";

/// The version shown to users: the release tag, or the branch name while the
/// tag is empty.
pub fn get_asg_version() -> (v: &'static str)
    ensures
        v@ == if TAG_NAME@.len() == 0 {
            BRANCH_NAME@
        } else {
            TAG_NAME@
        },
{
    if TAG_NAME.unicode_len() == 0 {
        BRANCH_NAME
    } else {
        TAG_NAME
    }
}

} // verus!
