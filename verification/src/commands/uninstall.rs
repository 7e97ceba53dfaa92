//! What `uninstall` recognizes besides the marker blocks.
use vstd::prelude::*;
use crate::text::{contains, str_contains};

verus! {

/// A `commit-msg` hook written by an older release, which marked the whole
/// file as "Installed by cmt"; `uninstall` deletes such a file.
pub fn is_legacy_hook(content: &str) -> (r: bool)
    ensures
        r == contains(content@, "Installed by cmt"@),
{
    str_contains(content, "Installed by cmt")
}

} // verus!
