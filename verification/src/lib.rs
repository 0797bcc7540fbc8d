//! Verified core of an interactive terminal file browser.
//!
//! The library owns the navigation state machine: the current directory,
//! the sorted entry list, the selection index, and the preview derived from
//! them. All filesystem and terminal I/O stays outside; callers read the
//! filesystem and hand the results in as plain values.

use vstd::prelude::*;

pub mod entry;
pub mod highlight;
pub mod nav;
pub mod order;
pub mod preview;
pub mod style;

verus! {

/// Clamp a selection index into a list of `len` entries: the result is
/// `i` when it is in range, the last index when `i` runs past the end,
/// and `0` for an empty list.
pub open spec fn clamp_index_spec(i: int, len: int) -> int {
    if len == 0 {
        0
    } else if i >= len {
        len - 1
    } else {
        i
    }
}

/// Executable form of [`clamp_index_spec`].
pub fn clamp_index(i: usize, len: usize) -> (r: usize)
    ensures
        r == clamp_index_spec(i as int, len as int),
{
    if len == 0 {
        0
    } else if i >= len {
        len - 1
    } else {
        i
    }
}

} // verus!
