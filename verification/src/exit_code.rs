//! Process exit codes.

use vstd::prelude::*;

verus! {

/// The command completed; for `scan`, no finding at or above the threshold.
pub const SUCCESS: i32 = 0;

/// `scan` found at least one finding at or above the threshold.
pub const FINDINGS_PRESENT: i32 = 1;

/// Invalid usage or unreadable input; nothing was scanned.
pub const USAGE_ERROR: i32 = 2;

/// An internal error not attributable to user input.
pub const INTERNAL_ERROR: i32 = 3;

/// The four exit codes are pairwise distinct.
pub proof fn law_exit_codes_distinct()
    ensures
        SUCCESS != FINDINGS_PRESENT,
        SUCCESS != USAGE_ERROR,
        SUCCESS != INTERNAL_ERROR,
        FINDINGS_PRESENT != USAGE_ERROR,
        FINDINGS_PRESENT != INTERNAL_ERROR,
        USAGE_ERROR != INTERNAL_ERROR,
{
}

} // verus!
